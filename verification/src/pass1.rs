//! The first pass: every statement gets its number, address and layout, the
//! labels go into the symbol table, and the operands of the directives are
//! checked. `START` sets the location counter to the address that it gives,
//! so every address is counted from there. Faults are collected; none stops
//! the pass.

use crate::error::{AsmError, AsmErrorView, OperandKind};
use crate::encode::lines_view;
use crate::grammar::{parsed_line, register_code};
use crate::line;
use crate::line::{
    arg, arg_struct, as_unsigned, first_integer, leading_integer, op_struct, operands_view,
    source_op, unsigned, ArgView, Line, LineView, OpView, OperandView, Pos, SourceOpView, Symtab,
    NOT_A_REGISTER,
};
use crate::parse::{parse_line, register_of};
use crate::text::str_eq;
use vstd::prelude::*;
use vstd::utf8::encode_utf8;

verus! {

/// The location counter after `by` bytes; it wraps at 2^32.
pub open spec fn advance(loc: u32, by: int) -> u32 {
    ((loc + by) % 0x1_0000_0000) as u32
}

/// The symbol table after the statement's label is entered with the value
/// `v`, and the fault of that step if there is one. A name that the table
/// holds is never entered again: the table stays as it is and the fault names
/// both lines. A statement without a label is a fault where `required` names
/// the directive that needs one.
pub open spec fn define(
    l: LineView,
    v: Option<i32>,
    symtab: Map<Seq<char>, Pos>,
    required: Option<Seq<char>>,
) -> (Map<Seq<char>, Pos>, Option<AsmErrorView>) {
    match l.label {
        Some(n) => if symtab.contains_key(n) {
            (
                symtab,
                Some(
                    AsmErrorView::DuplicateSymbol {
                        name: n,
                        first_line: symtab[n].line_no,
                        second_line: l.line_no,
                    },
                ),
            )
        } else {
            (symtab.insert(n, Pos { line_no: l.line_no, mem_loc: l.mem_loc, val: v }), None)
        },
        None => match required {
            Some(d) => (
                symtab,
                Some(AsmErrorView::MissingRequiredLabel { directive: d, line_no: l.line_no }),
            ),
            None => (symtab, None),
        },
    }
}

/// The directive that needs a label, if `panic` asks for one.
pub open spec fn requirement(panic: (bool, &'static str)) -> Option<Seq<char>> {
    if panic.0 {
        Some(panic.1@)
    } else {
        None
    }
}

/// Enters the label of `curr` into the symbol table, with the statement's
/// number and address and the value `v`. `panic` says whether a missing label
/// is a fault, and for which directive.
pub fn add_to_symtab(
    curr: &Line,
    v: Option<i32>,
    symtab: &mut Symtab,
    panic: (bool, &'static str),
) -> (r: Result<(), AsmError>)
    ensures
        final(symtab)@ == define(curr@, v, old(symtab)@, requirement(panic)).0,
        match define(curr@, v, old(symtab)@, requirement(panic)).1 {
            Some(e) => r is Err && r->Err_0@ == e,
            None => r is Ok,
        },
{
    match &curr.label {
        Some(l) => {
            match symtab.get(l.as_str()) {
                Some(p) => Err(
                    AsmError::DuplicateSymbol {
                        name: l.clone(),
                        first_line: p.line_no,
                        second_line: curr.line_no,
                    },
                ),
                None => {
                    symtab.insert(
                        l.clone(),
                        Pos { line_no: curr.line_no, mem_loc: curr.mem_loc, val: v },
                    );
                    Ok(())
                },
            }
        },
        None => {
            if panic.0 {
                Err(AsmError::MissingRequiredLabel { directive: panic.1, line_no: curr.line_no })
            } else {
                Ok(())
            }
        },
    }
}

/// Whether the first operand is the bare name of a register.
pub open spec fn first_is_register(args: Seq<OperandView>) -> bool {
    args.len() > 0 && args[0].val is Label && register_code(args[0].val->Label_0)
        != NOT_A_REGISTER
}

/// The layout of an instruction and the number of bytes that it takes.
/// Without operands it is the opcode alone, except that `RSUB` keeps a slot
/// of two bytes after its opcode; with the name of a register in the first
/// place it is two bytes; otherwise it is three bytes, or four in the
/// extended layout.
pub open spec fn layout(op: OpView, args: Seq<OperandView>) -> (line::format, int) {
    if args.len() == 0 {
        (
            line::format::Opless,
            if op.name == "RSUB"@ {
                3
            } else {
                1
            },
        )
    } else if first_is_register(args) {
        (line::format::Register, 2)
    } else if op.long {
        (line::format::Long, 4)
    } else {
        (line::format::Normal, 3)
    }
}

/// The number of storage units that `BYTE` or `WORD` fills: the length of a
/// character string, or the number of operands where the first is an integer.
pub open spec fn filled(args: Seq<OperandView>) -> Option<int> {
    if args.len() == 0 {
        None
    } else {
        match args[0].val {
            ArgView::StrLit(t) => Some(encode_utf8(t).len() as int),
            ArgView::IntLit(_) => Some(args.len() as int),
            _ => None,
        }
    }
}

/// The number of storage units that `RESB` or `RESW` reserves: its integer
/// operand.
pub open spec fn reserved_units(args: Seq<OperandView>) -> Option<int> {
    match first_integer(args) {
        Some(v) => Some(v as int),
        None => None,
    }
}

/// Whether a statement is a `START` that gives the address of the program.
pub open spec fn starts_program(p: LineView) -> bool {
    p.operation matches SourceOpView::Directive(x) && x.name == "START"@ && first_integer(
        p.args,
    ) is Some
}

/// The address of a statement that is read while the location counter is at
/// `loc`: a `START` with an integer operand stands at the address that the
/// operand gives, every other statement at `loc`.
pub open spec fn placed(p: LineView, loc: u32) -> u32 {
    if starts_program(p) {
        unsigned(first_integer(p.args)->0)
    } else {
        loc
    }
}

/// An address as the value of a symbol.
pub open spec fn address_value(m: u32) -> i32 {
    if m < 0x8000_0000 {
        m as i32
    } else {
        (m - 0x1_0000_0000) as i32
    }
}

/// What a symbol is worth as the operand of `EQU`: its value, or its address
/// if it has none.
pub open spec fn worth(p: Pos) -> i32 {
    match p.val {
        Some(v) => v,
        None => address_value(p.mem_loc),
    }
}

/// The outcome of the first pass on one statement.
pub struct Resolved {
    /// The statement with its number, address and layout.
    pub line: LineView,
    /// The location counter after the statement.
    pub next: u32,
    /// The symbol table after the statement.
    pub symtab: Map<Seq<char>, Pos>,
    /// The faults of the statement, in order.
    pub errors: Seq<AsmErrorView>,
}

/// A fault as a sequence of at most one.
pub open spec fn fault(e: Option<AsmErrorView>) -> Seq<AsmErrorView> {
    match e {
        Some(x) => seq![x],
        None => Seq::empty(),
    }
}

/// The outcome for a directive that takes storage: its label is required,
/// and the counter moves by `units` times `unit` bytes. Where the operands
/// give no number of units the counter stays and a fault says what was
/// expected.
pub open spec fn sized(
    l: LineView,
    x: OpView,
    loc: u32,
    symtab: Map<Seq<char>, Pos>,
    units: Option<int>,
    unit: int,
    expected: OperandKind,
) -> Resolved {
    let (t, e) = define(l, None, symtab, Some(x.name));
    match units {
        Some(n) => Resolved { line: l, next: advance(loc, unit * n), symtab: t, errors: fault(e) },
        None => Resolved {
            line: l,
            next: loc,
            symtab: t,
            errors: fault(e).push(
                AsmErrorView::InvalidOperandType {
                    operation: x.name,
                    expected,
                    line_no: l.line_no,
                },
            ),
        },
    }
}

/// The outcome for `EQU`: with exactly one operand the label is bound to a
/// value, that of an integer or that of a symbol which the table holds.
pub open spec fn equated(l: LineView, x: OpView, loc: u32, symtab: Map<Seq<char>, Pos>)
    -> Resolved {
    let same = Resolved { line: l, next: loc, symtab, errors: Seq::empty() };
    if l.args.len() != 1 {
        same
    } else {
        match l.args[0].val {
            ArgView::IntLit(v) => {
                let (t, e) = define(l, Some(v), symtab, Some(x.name));
                Resolved { symtab: t, errors: fault(e), ..same }
            },
            ArgView::Label(n) => if symtab.contains_key(n) {
                let (t, e) = define(l, Some(worth(symtab[n])), symtab, Some(x.name));
                Resolved { symtab: t, errors: fault(e), ..same }
            } else {
                Resolved {
                    errors: seq![
                        AsmErrorView::UndefinedSymbolReference { name: n, line_no: l.line_no },
                    ],
                    ..same
                }
            },
            _ => Resolved {
                errors: seq![
                    AsmErrorView::InvalidOperandType {
                        operation: x.name,
                        expected: OperandKind::IntegerOrSymbol,
                        line_no: l.line_no,
                    },
                ],
                ..same
            },
        }
    }
}

/// The outcome of the first pass on a parsed statement `p`, which becomes
/// line `no` while the location counter is at `loc`. A `START` with an
/// integer operand sets the location counter to that operand and stands
/// there itself; every other statement stands at `loc`, and the counter moves
/// past what the statement takes.
pub open spec fn resolve(p: LineView, loc: u32, no: u32, symtab: Map<Seq<char>, Pos>)
    -> Resolved {
    let l = LineView { line_no: no, mem_loc: loc, ..p };
    match p.operation {
        SourceOpView::Neh => Resolved {
            line: LineView { format: line::format::Comment, ..l },
            next: loc,
            symtab,
            errors: Seq::empty(),
        },
        SourceOpView::Error => Resolved {
            line: l,
            next: loc,
            symtab,
            errors: seq![AsmErrorView::InvalidOpcode { line_no: no }],
        },
        SourceOpView::Instruction(x) => {
            let (t, e) = define(l, None, symtab, None);
            let (f, n) = layout(x, p.args);
            Resolved {
                line: LineView { format: f, ..l },
                next: advance(loc, n),
                symtab: t,
                errors: fault(e),
            }
        },
        SourceOpView::Directive(x) => {
            let d = LineView { format: line::format::Directive, ..l };
            if x.name == "BYTE"@ {
                sized(d, x, loc, symtab, filled(p.args), 1, OperandKind::IntegerOrString)
            } else if x.name == "WORD"@ {
                sized(d, x, loc, symtab, filled(p.args), 3, OperandKind::IntegerOrString)
            } else if x.name == "RESB"@ {
                sized(d, x, loc, symtab, reserved_units(p.args), 1, OperandKind::Integer)
            } else if x.name == "RESW"@ {
                sized(d, x, loc, symtab, reserved_units(p.args), 3, OperandKind::Integer)
            } else if x.name == "EQU"@ {
                equated(d, x, loc, symtab)
            } else {
                let s = LineView { mem_loc: placed(p, loc), ..d };
                if s.label is Some && s.label->0.len() > 0 {
                    let (t, e) = define(s, None, symtab, None);
                    Resolved { line: s, next: s.mem_loc, symtab: t, errors: fault(e) }
                } else {
                    Resolved { line: s, next: s.mem_loc, symtab, errors: Seq::empty() }
                }
            }
        },
    }
}

/// The views of a sequence of faults, in order.
pub open spec fn errors_view(v: Seq<AsmError>) -> Seq<AsmErrorView> {
    Seq::new(v.len(), |i: int| v[i]@)
}

/// The location counter after a number of bytes.
fn advanced(loc: u32, by: i128) -> (r: u32)
    requires
        -0x10_0000_0000 <= by <= 0x1000_0000_0000_0000_0000,
    ensures
        r == advance(loc, by as int),
{
    let e: i128 = loc as i128 + by + 0x10_0000_0000;
    (e % 0x1_0000_0000) as u32
}

fn note(err_vec: &mut Vec<AsmError>, e: AsmError)
    ensures
        errors_view(final(err_vec)@) == errors_view(old(err_vec)@).push(e@),
{
    err_vec.push(e);
}

/// Notes the fault of a step, if there is one.
fn note_fault(err_vec: &mut Vec<AsmError>, r: Result<(), AsmError>)
    ensures
        errors_view(final(err_vec)@) == errors_view(old(err_vec)@) + match r {
            Ok(_) => Seq::empty(),
            Err(x) => seq![x@],
        },
{
    if let Err(x) = r {
        note(err_vec, x);
    }
}

/// Whether the operand is the bare name of a register.
fn names_register(a: &arg_struct) -> (r: bool)
    ensures
        r == (a@.val is Label && register_code(a@.val->Label_0) != NOT_A_REGISTER),
{
    match &a.val {
        arg::Label(n) => register_of(n.as_str()) != NOT_A_REGISTER,
        _ => false,
    }
}

/// The number of storage units that `BYTE` or `WORD` fills.
fn units_filled(args: &Vec<arg_struct>) -> (r: Option<usize>)
    ensures
        match filled(operands_view(args@)) {
            Some(n) => r == Some(n as usize) && n <= usize::MAX,
            None => r is None,
        },
{
    if args.len() == 0 {
        None
    } else {
        match &args[0].val {
            arg::StrLit(t) => Some(t.as_str().as_bytes().len()),
            arg::IntLit(_) => Some(args.len()),
            _ => None,
        }
    }
}

/// The first pass on a directive that takes storage.
fn size(
    l: &Line,
    x: op_struct,
    mem_loc: &mut u32,
    sym_tab: &mut Symtab,
    err_vec: &mut Vec<AsmError>,
    units: Option<i128>,
    unit: i128,
    expected: OperandKind,
)
    requires
        unit == 1 || unit == 3,
        units matches Some(n) ==> -0x8000_0000 <= n <= 0xFFFF_FFFF_FFFF_FFFF,
    ensures
        ({
            let o = sized(
                l@,
                x@,
                *old(mem_loc),
                old(sym_tab)@,
                match units {
                    Some(n) => Some(n as int),
                    None => None,
                },
                unit as int,
                expected,
            );
            &&& *final(mem_loc) == o.next
            &&& final(sym_tab)@ == o.symtab
            &&& errors_view(final(err_vec)@) == errors_view(old(err_vec)@) + o.errors
        }),
{
    let r = add_to_symtab(l, None, sym_tab, (true, x.name));
    note_fault(err_vec, r);
    match units {
        Some(n) => {
            *mem_loc = advanced(*mem_loc, unit * n);
        },
        None => {
            note(
                err_vec,
                AsmError::InvalidOperandType { operation: x.name, expected, line_no: l.line_no },
            );
        },
    }
}

fn widen(n: Option<usize>) -> (r: Option<i128>)
    ensures
        match n {
            Some(v) => r == Some(v as i128),
            None => r is None,
        },
{
    match n {
        Some(v) => Some(v as i128),
        None => None,
    }
}

fn widen_signed(n: Option<i32>) -> (r: Option<i128>)
    ensures
        match n {
            Some(v) => r == Some(v as i128),
            None => r is None,
        },
{
    match n {
        Some(v) => Some(v as i128),
        None => None,
    }
}

/// A symbol's worth as the operand of `EQU`.
fn worth_of(p: &Pos) -> (r: i32)
    ensures
        r == worth(*p),
{
    match p.val {
        Some(v) => v,
        None => if p.mem_loc < 0x8000_0000 {
            p.mem_loc as i32
        } else {
            (p.mem_loc as i64 - 0x1_0000_0000) as i32
        },
    }
}

/// The first pass on `EQU`.
fn equate(l: &Line, x: op_struct, sym_tab: &mut Symtab, err_vec: &mut Vec<AsmError>)
    ensures
        ({
            let o = equated(l@, x@, 0, old(sym_tab)@);
            &&& final(sym_tab)@ == o.symtab
            &&& errors_view(final(err_vec)@) == errors_view(old(err_vec)@) + o.errors
        }),
{
    if l.args.len() != 1 {
        return ;
    }
    let value: Option<i32> = match &l.args[0].val {
        arg::IntLit(v) => Some(*v),
        arg::Label(n) => match sym_tab.get(n.as_str()) {
            Some(p) => Some(worth_of(p)),
            None => {
                let e = AsmError::UndefinedSymbolReference { name: n.clone(), line_no: l.line_no };
                note(err_vec, e);
                return ;
            },
        },
        _ => {
            let e = AsmError::InvalidOperandType {
                operation: x.name,
                expected: OperandKind::IntegerOrSymbol,
                line_no: l.line_no,
            };
            note(err_vec, e);
            return ;
        },
    };
    let r = add_to_symtab(l, value, sym_tab, (true, x.name));
    note_fault(err_vec, r);
}

/// The first pass on one parsed statement, which becomes line `no` at the
/// address that `mem_loc` holds: the statement gets its number, address and
/// layout, `mem_loc` moves past it, its label goes into `sym_tab`, and its
/// faults are appended to `err_vec`.
pub fn resolve_line(
    parsed: Line,
    mem_loc: &mut u32,
    no: u32,
    sym_tab: &mut Symtab,
    err_vec: &mut Vec<AsmError>,
) -> (r: Line)
    ensures
        ({
            let o = resolve(parsed@, *old(mem_loc), no, old(sym_tab)@);
            &&& r@ == o.line
            &&& *final(mem_loc) == o.next
            &&& final(sym_tab)@ == o.symtab
            &&& errors_view(final(err_vec)@) == errors_view(old(err_vec)@) + o.errors
        }),
{
    let mut l = parsed;
    l.line_no = no;
    l.mem_loc = *mem_loc;
    let loc = *mem_loc;
    match l.operation {
        source_op::Neh => {
            l.format = line::format::Comment;
        },
        source_op::Error => {
            let e = AsmError::InvalidOpcode { line_no: no };
            note(err_vec, e);
        },
        source_op::Instruction(x) => {
            let r = add_to_symtab(&l, None, sym_tab, (false, ""));
            note_fault(err_vec, r);
            if l.args.len() == 0 {
                l.format = line::format::Opless;
                if str_eq(x.name, "RSUB") {
                    *mem_loc = advanced(loc, 3);
                } else {
                    *mem_loc = advanced(loc, 1);
                }
            } else if names_register(&l.args[0]) {
                l.format = line::format::Register;
                *mem_loc = advanced(loc, 2);
            } else if x.long {
                l.format = line::format::Long;
                *mem_loc = advanced(loc, 4);
            } else {
                l.format = line::format::Normal;
                *mem_loc = advanced(loc, 3);
            }
        },
        source_op::Directive(x) => {
            l.format = line::format::Directive;
            if str_eq(x.name, "BYTE") {
                let units = widen(units_filled(&l.args));
                size(&l, x, mem_loc, sym_tab, err_vec, units, 1, OperandKind::IntegerOrString);
            } else if str_eq(x.name, "WORD") {
                let units = widen(units_filled(&l.args));
                size(&l, x, mem_loc, sym_tab, err_vec, units, 3, OperandKind::IntegerOrString);
            } else if str_eq(x.name, "RESB") {
                let units = widen_signed(leading_integer(&l.args));
                size(&l, x, mem_loc, sym_tab, err_vec, units, 1, OperandKind::Integer);
            } else if str_eq(x.name, "RESW") {
                let units = widen_signed(leading_integer(&l.args));
                size(&l, x, mem_loc, sym_tab, err_vec, units, 3, OperandKind::Integer);
            } else if str_eq(x.name, "EQU") {
                equate(&l, x, sym_tab, err_vec);
            } else {
                if str_eq(x.name, "START") {
                    if let Some(v) = leading_integer(&l.args) {
                        l.mem_loc = as_unsigned(v);
                        *mem_loc = l.mem_loc;
                    }
                }
                let named = match &l.label {
                    Some(n) => n.as_str().unicode_len() > 0,
                    None => false,
                };
                if named {
                    let r = add_to_symtab(&l, None, sym_tab, (false, ""));
                    note_fault(err_vec, r);
                }
            }
        },
    }
    l
}

/// The line number after `line_no`; it wraps at 2^32.
pub open spec fn following(line_no: u32) -> u32 {
    ((line_no + 1) % 0x1_0000_0000) as u32
}

/// Parses one line of source text and runs the first pass on it. `line_no`
/// is counted up first, so the first statement of a program is line 1.
pub fn statement(
    text: &str,
    mem_loc: &mut u32,
    line_no: &mut u32,
    sym_tab: &mut Symtab,
    err_vec: &mut Vec<AsmError>,
) -> (r: Line)
    ensures
        ({
            let o = resolve(
                parsed_line(text@),
                *old(mem_loc),
                following(*old(line_no)),
                old(sym_tab)@,
            );
            &&& *final(line_no) == following(*old(line_no))
            &&& r@ == o.line
            &&& *final(mem_loc) == o.next
            &&& final(sym_tab)@ == o.symtab
            &&& errors_view(final(err_vec)@) == errors_view(old(err_vec)@) + o.errors
        }),
{
    *line_no = if *line_no == u32::MAX {
        0
    } else {
        *line_no + 1
    };
    let parsed = parse_line(text);
    resolve_line(parsed, mem_loc, *line_no, sym_tab, err_vec)
}

/// The state of the first pass after a number of lines.
pub struct Assembly {
    /// The statements so far, in order.
    pub lines: Seq<LineView>,
    /// The symbol table so far.
    pub symtab: Map<Seq<char>, Pos>,
    /// The faults so far, in order.
    pub errors: Seq<AsmErrorView>,
    /// The location counter.
    pub loc: u32,
    /// The number of the last line.
    pub line_no: u32,
}

/// The first pass over a program, line by line from an empty symbol table,
/// with the location counter and the line count at zero.
pub open spec fn assembled(source: Seq<Seq<char>>) -> Assembly
    decreases source.len(),
{
    if source.len() == 0 {
        Assembly {
            lines: Seq::empty(),
            symtab: Map::empty(),
            errors: Seq::empty(),
            loc: 0,
            line_no: 0,
        }
    } else {
        let a = assembled(source.drop_last());
        let o = resolve(parsed_line(source.last()), a.loc, following(a.line_no), a.symtab);
        Assembly {
            lines: a.lines.push(o.line),
            symtab: o.symtab,
            errors: a.errors + o.errors,
            loc: o.next,
            line_no: following(a.line_no),
        }
    }
}

/// The texts of a sequence of lines.
pub open spec fn source_view(v: Seq<String>) -> Seq<Seq<char>> {
    Seq::new(v.len(), |i: int| v[i]@)
}

/// The state of the first pass between two lines: the location counter, the
/// number of the last line, the symbol table and the faults found so far.
pub struct Session {
    pub mem_loc: u32,
    pub line_no: u32,
    pub sym_tab: Symtab,
    pub err_vec: Vec<AsmError>,
}

impl Session {
    /// The state before the first line.
    pub fn new() -> (r: Session)
        ensures
            r.mem_loc == 0,
            r.line_no == 0,
            r.sym_tab@ == Map::<Seq<char>, Pos>::empty(),
            errors_view(r.err_vec@) == Seq::<AsmErrorView>::empty(),
    {
        Session { mem_loc: 0, line_no: 0, sym_tab: Symtab::new(), err_vec: Vec::new() }
    }

    /// Parses the next line of source text and runs the first pass on it.
    pub fn statement(&mut self, text: &str) -> (r: Line)
        ensures
            ({
                let o = resolve(
                    parsed_line(text@),
                    old(self).mem_loc,
                    following(old(self).line_no),
                    old(self).sym_tab@,
                );
                &&& final(self).line_no == following(old(self).line_no)
                &&& r@ == o.line
                &&& final(self).mem_loc == o.next
                &&& final(self).sym_tab@ == o.symtab
                &&& errors_view(final(self).err_vec@) == errors_view(old(self).err_vec@)
                    + o.errors
            }),
    {
        statement(text, &mut self.mem_loc, &mut self.line_no, &mut self.sym_tab, &mut self.err_vec)
    }
}

/// Parses a program and runs the first pass over it: the statements in
/// order, the symbol table, and the faults in order. The second pass is
/// meant to run only if there is no fault.
pub fn assemble(source_lines: &Vec<String>) -> (r: (Vec<Line>, Symtab, Vec<AsmError>))
    ensures
        lines_view(r.0@) == assembled(source_view(source_lines@)).lines,
        r.1@ == assembled(source_view(source_lines@)).symtab,
        errors_view(r.2@) == assembled(source_view(source_lines@)).errors,
{
    let ghost source = source_view(source_lines@);
    let mut lines: Vec<Line> = Vec::new();
    let mut session = Session::new();
    let mut i: usize = 0;
    assert(lines_view(lines@) =~= Seq::<LineView>::empty());
    while i < source_lines.len()
        invariant
            i <= source_lines.len(),
            source == source_view(source_lines@),
            lines_view(lines@) == assembled(source.subrange(0, i as int)).lines,
            session.sym_tab@ == assembled(source.subrange(0, i as int)).symtab,
            errors_view(session.err_vec@) == assembled(source.subrange(0, i as int)).errors,
            session.mem_loc == assembled(source.subrange(0, i as int)).loc,
            session.line_no == assembled(source.subrange(0, i as int)).line_no,
        decreases source_lines.len() - i,
    {
        assert(source.subrange(0, i + 1).drop_last() =~= source.subrange(0, i as int));
        let ghost before = lines_view(lines@);
        let l = session.statement(source_lines[i].as_str());
        let ghost added = l@;
        lines.push(l);
        assert(lines_view(lines@) =~= before.push(added));
        i = i + 1;
    }
    assert(source.subrange(0, i as int) =~= source);
    (lines, session.sym_tab, session.err_vec)
}

} // verus!
