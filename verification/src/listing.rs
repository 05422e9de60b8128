//! The listing: one line of text for every statement that is listed, with
//! its number, address, label, operation, operands and bytes in columns.

use crate::line::{
    arg, arg_struct, operands_view, source_op, ArgView, Line, LineView, OperandView, SourceOpView,
};
use crate::encode::lines_view;
use crate::text::{
    hex_bytes, hex_digits, pad_right, push_decimal, push_hex, push_hex_bytes, push_padded,
    push_repeated, repeated, spec_decimal, str_eq,
};
use vstd::prelude::*;

verus! {

/// The text of an operand's content, filled up to eight characters.
pub open spec fn arg_text(a: ArgView) -> Seq<char> {
    match a {
        ArgView::Label(x) => pad_right(x, 8),
        ArgView::StrLit(x) => pad_right(seq!['"'] + x + seq!['"'], 8),
        ArgView::IntLit(v) => pad_right(spec_decimal(v as int), 8),
        ArgView::Expr(_) => "Comment"@,
    }
}

/// The text of an operand: its content and a comma.
pub open spec fn operand_text(a: OperandView) -> Seq<char> {
    arg_text(a.val).push(',')
}

/// The text of an operation: its mnemonic filled up to twelve characters, or
/// a word for a line without one.
pub open spec fn operation_text(op: SourceOpView) -> Seq<char> {
    match op {
        SourceOpView::Directive(x) => pad_right(x.name, 12),
        SourceOpView::Instruction(x) => pad_right(x.name, 12),
        SourceOpView::Error => "Error_op"@,
        SourceOpView::Neh => "Comment"@,
    }
}

/// The texts of the operands, one after the other.
pub open spec fn operands_text(args: Seq<OperandView>) -> Seq<char>
    decreases args.len(),
{
    if args.len() == 0 {
        Seq::empty()
    } else {
        operands_text(args.drop_last()) + operand_text(args.last())
    }
}

/// The number of blank columns of six spaces that follow a list of `n`
/// entries where at least `least` are added.
pub open spec fn blank_columns(n: nat, least: nat) -> nat {
    if n < 2 {
        (2 - n) as nat
    } else {
        least
    }
}

/// The operand column of the listing.
pub open spec fn spec_display_vec(args: Seq<OperandView>) -> Seq<char> {
    operands_text(args) + repeated(' ', 6 * blank_columns(args.len(), 1) as int)
}

/// The byte column of the listing.
pub open spec fn spec_display_vec_nums(b: Seq<u8>) -> Seq<char> {
    hex_bytes(b) + repeated(' ', 6 * blank_columns(b.len(), 0) as int)
}

/// The text of an optional label.
pub open spec fn label_text(l: Option<Seq<char>>) -> Seq<char> {
    match l {
        Some(t) => t,
        None => Seq::empty(),
    }
}

/// The listing line of a statement. The last two columns are filled up to
/// `width` characters.
pub open spec fn listing_line(l: LineView, width: nat) -> Seq<char> {
    pad_right(spec_decimal(l.line_no as int), 4) + pad_right(hex_digits(l.mem_loc as nat), 8)
        + pad_right(label_text(l.label), 8) + operation_text(l.operation) + pad_right(
        spec_display_vec(l.args),
        width,
    ) + pad_right(spec_display_vec_nums(l.obj_code), width) + seq!['\n']
}

/// Whether the listing has a line for the statement: for every instruction,
/// and for the directives that define the program's extent and storage.
pub open spec fn listed(op: SourceOpView) -> bool {
    match op {
        SourceOpView::Instruction(_) => true,
        SourceOpView::Directive(x) => x.name == "START"@ || x.name == "END"@ || x.name
            == "RESB"@ || x.name == "RESW"@ || x.name == "BYTE"@ || x.name == "WORD"@,
        _ => false,
    }
}

/// The listing of a sequence of statements.
pub open spec fn listing(lines: Seq<LineView>, width: nat) -> Seq<char>
    decreases lines.len(),
{
    if lines.len() == 0 {
        Seq::empty()
    } else if listed(lines.last().operation) {
        listing(lines.drop_last(), width) + listing_line(lines.last(), width)
    } else {
        listing(lines.drop_last(), width)
    }
}

impl arg {
    /// The operand content as the listing shows it.
    pub fn to_text(&self) -> (r: String)
        ensures
            r@ == arg_text(self@),
    {
        let mut out = String::new();
        match self {
            arg::Label(x) => {
                push_padded(&mut out, x.as_str(), 8);
            },
            arg::StrLit(x) => {
                let mut quoted = String::new();
                quoted.push('"');
                quoted.append(x.as_str());
                quoted.push('"');
                push_padded(&mut out, quoted.as_str(), 8);
            },
            arg::IntLit(v) => {
                let mut number = String::new();
                push_decimal(&mut number, *v as i64);
                push_padded(&mut out, number.as_str(), 8);
            },
            arg::Expr(_) => {
                out.append("Comment");
            },
        }
        out
    }
}

impl arg_struct {
    /// The operand as the listing shows it.
    pub fn to_text(&self) -> (r: String)
        ensures
            r@ == operand_text(self@),
    {
        let mut out = self.val.to_text();
        out.push(',');
        out
    }
}

impl source_op {
    /// The operation as the listing shows it.
    pub fn to_text(&self) -> (r: String)
        ensures
            r@ == operation_text(self@),
    {
        let mut out = String::new();
        match self {
            source_op::Directive(x) => {
                push_padded(&mut out, x.name, 12);
            },
            source_op::Instruction(x) => {
                push_padded(&mut out, x.name, 12);
            },
            source_op::Error => {
                out.append("Error_op");
            },
            source_op::Neh => {
                out.append("Comment");
            },
        }
        out
    }
}

/// The operand column of the listing: every operand with a comma after it,
/// then blank columns of six spaces, two less the number of operands and at
/// least one.
pub fn display_vec(v: &Vec<arg_struct>) -> (a: String)
    ensures
        a@ == spec_display_vec(operands_view(v@)),
{
    let ghost all = operands_view(v@);
    let mut a = String::new();
    let mut i: usize = 0;
    while i < v.len()
        invariant
            i <= v.len(),
            all == operands_view(v@),
            a@ == operands_text(all.subrange(0, i as int)),
        decreases v.len() - i,
    {
        assert(all.subrange(0, i + 1).drop_last() =~= all.subrange(0, i as int));
        let t = v[i].to_text();
        a.append(t.as_str());
        i = i + 1;
    }
    assert(all.subrange(0, i as int) =~= all);
    let blanks: usize = if v.len() < 2 {
        2 - v.len()
    } else {
        1
    };
    push_repeated(&mut a, ' ', 6 * blanks);
    a
}

/// The byte column of the listing: two hexadecimal digits for every byte,
/// then blank columns of six spaces, two less the number of bytes.
pub fn display_vec_nums(v: &Vec<u8>) -> (a: String)
    ensures
        a@ == spec_display_vec_nums(v@),
{
    let mut a = String::new();
    push_hex_bytes(&mut a, v);
    let blanks: usize = if v.len() < 2 {
        2 - v.len()
    } else {
        0
    };
    push_repeated(&mut a, ' ', 6 * blanks);
    a
}

/// Whether the listing has a line for the operation.
pub fn is_listed(op: &source_op) -> (r: bool)
    ensures
        r == listed(op@),
{
    match op {
        source_op::Instruction(_) => true,
        source_op::Directive(x) => str_eq(x.name, "START") || str_eq(x.name, "END") || str_eq(
            x.name,
            "RESB",
        ) || str_eq(x.name, "RESW") || str_eq(x.name, "BYTE") || str_eq(x.name, "WORD"),
        _ => false,
    }
}

/// Appends the listing line of a statement.
pub fn push_listing_line(out: &mut String, l: &Line, width: usize)
    ensures
        final(out)@ == old(out)@ + listing_line(l@, width as nat),
{
    let mut number = String::new();
    push_decimal(&mut number, l.line_no as i64);
    push_padded(out, number.as_str(), 4);
    let mut address = String::new();
    push_hex(&mut address, l.mem_loc as u64, 0);
    push_padded(out, address.as_str(), 8);
    match &l.label {
        Some(t) => {
            push_padded(out, t.as_str(), 8);
        },
        None => {
            proof {
                reveal_strlit("");
            }
            push_padded(out, "", 8);
        },
    }
    let operation = l.operation.to_text();
    out.append(operation.as_str());
    let operands = display_vec(&l.args);
    push_padded(out, operands.as_str(), width);
    let bytes = display_vec_nums(&l.obj_code);
    push_padded(out, bytes.as_str(), width);
    out.push('\n');
}

/// Appends the listing of a sequence of statements.
pub fn push_listing(out: &mut String, lines: &Vec<Line>, width: usize)
    ensures
        final(out)@ == old(out)@ + listing(lines_view(lines@), width as nat),
{
    let ghost all = lines_view(lines@);
    let mut i: usize = 0;
    while i < lines.len()
        invariant
            i <= lines.len(),
            all == lines_view(lines@),
            out@ == old(out)@ + listing(all.subrange(0, i as int), width as nat),
        decreases lines.len() - i,
    {
        assert(all.subrange(0, i + 1).drop_last() =~= all.subrange(0, i as int));
        if is_listed(&lines[i].operation) {
            push_listing_line(out, &lines[i], width);
        }
        i = i + 1;
    }
    assert(all.subrange(0, i as int) =~= all);
}

} // verus!
