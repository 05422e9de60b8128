//! The grammar of a source line, as functions on a sequence of characters
//! and a position in it.
//!
//! A line is `[label] mnemonic [operand[, operand]] [. comment]`. Every rule
//! takes the line and the position where it starts, and gives what it read
//! and the position after it, or nothing if it does not apply there.

use crate::chars::{
    blank, decimal_digit, digit_value, hex_digit, identifier_char, upper_text,
};
use crate::line::{addr_mod, ArgView, LineView, OperandView, SourceOpView, NOT_A_REGISTER};
use crate::tables::{spec_asm_directive, spec_instruction};
use vstd::prelude::*;

verus! {

/// A class of characters that a rule reads a run of.
#[derive(Debug, Clone, Copy)]
pub enum CharClass {
    /// Spaces and tabs.
    Blank,
    /// Letters, digits and the underscore.
    Identifier,
    /// Decimal digits.
    Decimal,
    /// Hexadecimal digits.
    Hex,
    /// Everything but the single quote.
    Unquoted,
    /// Everything but the line feed.
    SameLine,
}

/// Whether a character belongs to a class.
pub open spec fn in_class(k: CharClass, c: char) -> bool {
    match k {
        CharClass::Blank => blank(c),
        CharClass::Identifier => identifier_char(c),
        CharClass::Decimal => decimal_digit(c),
        CharClass::Hex => hex_digit(c),
        CharClass::Unquoted => c != '\'',
        CharClass::SameLine => c != '\n',
    }
}

/// The end of the longest run of characters of a class that starts at `i`:
/// the first position from `i` on that holds a character outside the class,
/// or the end of the line.
pub open spec fn run_end(s: Seq<char>, i: int, k: CharClass) -> int
    decreases s.len() - i,
{
    if 0 <= i < s.len() && in_class(k, s[i]) {
        run_end(s, i + 1, k)
    } else {
        i
    }
}

/// The number that a sequence of digits denotes in a radix.
pub open spec fn number_value(ds: Seq<char>, radix: int) -> int
    decreases ds.len(),
{
    if ds.len() == 0 {
        0
    } else {
        number_value(ds.drop_last(), radix) * radix + digit_value(ds.last())
    }
}

/// A number reduced to twenty-four bits.
pub open spec fn mask24(v: int) -> i32 {
    (v % 0x100_0000) as i32
}

/// Whether a sign stands at `i`.
pub open spec fn signed(s: Seq<char>, i: int) -> bool {
    0 <= i < s.len() && (s[i] == '+' || s[i] == '-')
}

/// An optional sign and at least one digit of the class `k`: the number they
/// denote in the radix, reduced to twenty-four bits.
pub open spec fn numeral(s: Seq<char>, i: int, k: CharClass, radix: int) -> Option<(i32, int)> {
    let j = if signed(s, i) {
        i + 1
    } else {
        i
    };
    let e = run_end(s, j, k);
    if e > j {
        let m = number_value(s.subrange(j, e), radix);
        Some(
            (
                mask24(
                    if signed(s, i) && s[i] == '-' {
                        -m
                    } else {
                        m
                    },
                ),
                e,
            ),
        )
    } else {
        None
    }
}

/// A decimal number.
pub open spec fn dec(s: Seq<char>, i: int) -> Option<(i32, int)> {
    numeral(s, i, CharClass::Decimal, 10)
}

/// A hexadecimal number without its mark.
pub open spec fn hex_base(s: Seq<char>, i: int) -> Option<(i32, int)> {
    numeral(s, i, CharClass::Hex, 16)
}

/// A hexadecimal number with the letter `h` after it.
pub open spec fn hex(s: Seq<char>, i: int) -> Option<(i32, int)> {
    match hex_base(s, i) {
        Some((v, e)) => if e < s.len() && s[e] == 'h' {
            Some((v, e + 1))
        } else {
            None
        },
        None => None,
    }
}

/// A hexadecimal number between `x'` and `'`.
pub open spec fn hex_lit(s: Seq<char>, i: int) -> Option<(i32, int)> {
    if 0 <= i && i + 1 < s.len() && (s[i] == 'x' || s[i] == 'X') && s[i + 1] == '\'' {
        match hex_base(s, i + 2) {
            Some((v, e)) => if e < s.len() && s[e] == '\'' {
                Some((v, e + 1))
            } else {
                None
            },
            None => None,
        }
    } else {
        None
    }
}

/// A number in one of its three forms; the quoted form is tried first, then
/// the form with `h`, then the decimal one.
pub open spec fn num(s: Seq<char>, i: int) -> Option<(i32, int)> {
    if hex_lit(s, i) is Some {
        hex_lit(s, i)
    } else if hex(s, i) is Some {
        hex(s, i)
    } else {
        dec(s, i)
    }
}

/// A character string between `c'` and the next `'`.
pub open spec fn str_lit(s: Seq<char>, i: int) -> Option<(Seq<char>, int)> {
    if 0 <= i && i + 1 < s.len() && (s[i] == 'c' || s[i] == 'C') && s[i + 1] == '\'' {
        let e = run_end(s, i + 2, CharClass::Unquoted);
        if e < s.len() {
            Some((s.subrange(i + 2, e), e + 1))
        } else {
            None
        }
    } else {
        None
    }
}

/// The word at `i`: the longest run of name characters. Beyond the end of
/// the line it is empty.
pub open spec fn word(s: Seq<char>, i: int) -> Seq<char> {
    if 0 <= i <= s.len() {
        s.subrange(i, run_end(s, i, CharClass::Identifier))
    } else {
        Seq::empty()
    }
}

/// A directive: the word at `i` is its mnemonic, in either case.
pub open spec fn directive_at(s: Seq<char>, i: int) -> Option<(SourceOpView, int)> {
    match spec_asm_directive(upper_text(word(s, i))) {
        Some(op) => Some((op, run_end(s, i, CharClass::Identifier))),
        None => None,
    }
}

/// Whether the mark of the extended layout stands at `i`.
pub open spec fn extended(s: Seq<char>, i: int) -> bool {
    0 <= i < s.len() && s[i] == '+'
}

/// An instruction: an optional `+` and a word that is its mnemonic, in either
/// case.
pub open spec fn instruction_at(s: Seq<char>, i: int) -> Option<(SourceOpView, int)> {
    let j = if extended(s, i) {
        i + 1
    } else {
        i
    };
    match spec_instruction(upper_text(word(s, j)), extended(s, i)) {
        Some(op) => Some((op, run_end(s, j, CharClass::Identifier))),
        None => None,
    }
}

/// A directive or an instruction.
pub open spec fn mnemonic_at(s: Seq<char>, i: int) -> Option<(SourceOpView, int)> {
    if directive_at(s, i) is Some {
        directive_at(s, i)
    } else {
        instruction_at(s, i)
    }
}

/// A name: the word at `i`, unless a mnemonic stands there.
pub open spec fn label(s: Seq<char>, i: int) -> Option<(Seq<char>, int)> {
    if mnemonic_at(s, i) is Some {
        None
    } else {
        Some((word(s, i), run_end(s, i, CharClass::Identifier)))
    }
}

/// The code of the register that a name stands for, in either case, or
/// [`NOT_A_REGISTER`].
pub open spec fn register_code(name: Seq<char>) -> u8 {
    let w = upper_text(name);
    if w == "A"@ {
        0x00
    } else if w == "X"@ {
        0x01
    } else if w == "L"@ {
        0x02
    } else if w == "B"@ {
        0x03
    } else if w == "S"@ {
        0x04
    } else if w == "T"@ {
        0x05
    } else if w == "F"@ {
        0x06
    } else if w == "PC"@ {
        0x08
    } else if w == "SW"@ {
        0x09
    } else {
        NOT_A_REGISTER
    }
}

/// The addressing mode that the character at `i` marks, and the position of
/// the operand's content.
pub open spec fn sigil(s: Seq<char>, i: int) -> (addr_mod, int) {
    if 0 <= i < s.len() && s[i] == '#' {
        (addr_mod::Immediate, i + 1)
    } else if 0 <= i < s.len() && s[i] == '@' {
        (addr_mod::Indirect, i + 1)
    } else if 0 <= i < s.len() && s[i] == '=' {
        (addr_mod::Literal, i + 1)
    } else {
        (addr_mod::Direct, i)
    }
}

/// The content of an operand: a number, else a character string, else a
/// name.
pub open spec fn content(s: Seq<char>, i: int) -> Option<(ArgView, int)> {
    match num(s, i) {
        Some((v, e)) => Some((ArgView::IntLit(v), e)),
        None => match str_lit(s, i) {
            Some((t, e)) => Some((ArgView::StrLit(t), e)),
            None => match label(s, i) {
                Some((n, e)) => Some((ArgView::Label(n), e)),
                None => None,
            },
        },
    }
}

/// The register code of an operand's content.
pub open spec fn content_register(v: ArgView) -> u8 {
    match v {
        ArgView::Label(n) => register_code(n),
        _ => NOT_A_REGISTER,
    }
}

/// An operand: an optional addressing mark and a content.
pub open spec fn operand(s: Seq<char>, i: int) -> Option<(OperandView, int)> {
    let (m, j) = sigil(s, i);
    match content(s, j) {
        Some((v, e)) => Some(
            (OperandView { val: v, reg_code: content_register(v), modifier: m }, e),
        ),
        None => None,
    }
}

/// The separator of two operands: a comma with at most one blank on either
/// side.
pub open spec fn separator(s: Seq<char>, i: int) -> Option<int> {
    let a = if 0 <= i < s.len() && blank(s[i]) {
        i + 1
    } else {
        i
    };
    if 0 <= a < s.len() && s[a] == ',' {
        Some(
            if a + 1 < s.len() && blank(s[a + 1]) {
                a + 2
            } else {
                a + 1
            },
        )
    } else {
        None
    }
}

/// The operands that follow one already read: each a separator and an
/// operand that is not empty. The list ends before a separator that no such
/// operand follows.
pub open spec fn more_operands(s: Seq<char>, i: int) -> (Seq<OperandView>, int)
    decreases s.len() - i,
{
    match separator(s, i) {
        None => (Seq::empty(), i),
        Some(j) => match operand(s, j) {
            None => (Seq::empty(), i),
            Some((a, e)) => if i < e <= s.len() && j < e {
                let (rest, end) = more_operands(s, e);
                (seq![a] + rest, end)
            } else {
                (Seq::empty(), i)
            },
        },
    }
}

/// The operand list: at least one blank, then operands with separators
/// between them. A first operand that is empty makes the rule fail.
pub open spec fn operands(s: Seq<char>, i: int) -> Option<(Seq<OperandView>, int)> {
    let w = run_end(s, i, CharClass::Blank);
    if w == i {
        None
    } else {
        match operand(s, w) {
            None => Some((Seq::empty(), w)),
            Some((a, e)) => if e == w {
                None
            } else {
                let (rest, end) = more_operands(s, e);
                Some((seq![a] + rest, end))
            },
        }
    }
}

/// The operand list, or no operands where the rule fails.
pub open spec fn operands_or_none(s: Seq<char>, i: int) -> (Seq<OperandView>, int) {
    match operands(s, i) {
        Some(r) => r,
        None => (Seq::empty(), i),
    }
}

/// The statement label at `i`: a name with at least one blank after it. The
/// position is the one after the blanks.
pub open spec fn statement_label(s: Seq<char>, i: int) -> Option<(Seq<char>, int)> {
    match label(s, i) {
        Some((l, e)) => if run_end(s, e, CharClass::Blank) > e {
            Some((l, run_end(s, e, CharClass::Blank)))
        } else {
            None
        },
        None => None,
    }
}

/// What a line holds before its comment.
pub struct Statement {
    pub label: Option<Seq<char>>,
    pub operation: SourceOpView,
    pub args: Seq<OperandView>,
    /// The position after the statement.
    pub end: int,
}

/// Whether a line carries no statement: it is empty, or a `.` follows its
/// leading blanks.
pub open spec fn no_statement(s: Seq<char>) -> bool {
    let i = run_end(s, 0, CharClass::Blank);
    s.len() == 0 || (i < s.len() && s[i] == '.')
}

/// The statement of a line that carries one: an optional label, the
/// operation, which is unrecognized where no mnemonic stands, and the
/// operands.
pub open spec fn statement_of(s: Seq<char>) -> Statement {
    let i = run_end(s, 0, CharClass::Blank);
    let (l, j) = match statement_label(s, i) {
        Some((l, j)) => (Some(l), j),
        None => (None, i),
    };
    let (op, k) = match mnemonic_at(s, j) {
        Some(r) => r,
        None => (SourceOpView::Error, j),
    };
    let (args, end) = operands_or_none(s, k);
    Statement { label: l, operation: op, args, end }
}

/// The comment at `i`: what follows a `.` after blanks, up to the end of the
/// line.
pub open spec fn comment(s: Seq<char>, i: int) -> Option<Seq<char>> {
    let j = run_end(s, i, CharClass::Blank);
    if j < s.len() && s[j] == '.' {
        Some(s.subrange(j + 1, s.len() as int))
    } else {
        None
    }
}

/// A comment, or the empty text where there is none.
pub open spec fn comment_or_empty(s: Seq<char>, i: int) -> Seq<char> {
    match comment(s, i) {
        Some(c) => c,
        None => Seq::empty(),
    }
}

/// The line of a text: what stands before its first line feed.
pub open spec fn line_of(text: Seq<char>) -> Seq<char> {
    text.subrange(0, run_end(text, 0, CharClass::SameLine))
}

/// The statement that a line of source text parses to. It has no number,
/// address, layout or bytes yet.
pub open spec fn parsed_line(text: Seq<char>) -> LineView {
    let s = line_of(text);
    if no_statement(s) {
        LineView { comment: comment_or_empty(s, 0), ..LineView::empty() }
    } else {
        let st = statement_of(s);
        LineView {
            label: st.label,
            operation: st.operation,
            args: st.args,
            comment: comment_or_empty(s, st.end),
            ..LineView::empty()
        }
    }
}

} // verus!
