//! The second pass: every statement is encoded into its object bytes.
//!
//! The layouts are stated arithmetically. A three-byte instruction holds the
//! opcode byte and a sixteen-bit word made of four flag bits (indexed, base
//! relative, counter relative, extended) above a twelve-bit field; a four-byte
//! instruction holds the opcode byte and a twenty-four-bit word made of the
//! same flags above a twenty-bit address.

use crate::line;
use crate::error::{AsmError, AsmErrorView, OperandKind};
use crate::line::{
    addr_mod, arg, arg_struct, ArgView, Line, LineView, OpView, OperandView, Pos,
    SourceOpView, Symtab, INDEX_REGISTER, op_struct, source_op, operands_view,
};
use crate::text::str_eq;
use vstd::prelude::*;

verus! {

/// The value of the running base register while no base is set.
pub const NO_BASE: u32 = 0xFFFF_FFFF;

/// Flag of an indexed operand in the sixteen-bit word of a three-byte
/// instruction.
pub const INDEXED: u16 = 0x8000;

/// Flag of a displacement relative to the base register.
pub const BASE_RELATIVE: u16 = 0x4000;

/// Flag of a displacement relative to the instruction's own address.
pub const COUNTER_RELATIVE: u16 = 0x2000;

/// Flag that marks the four-byte layout, in its twenty-four-bit word.
pub const EXTENDED: u32 = 0x10_0000;

/// Flag of an indexed operand in the twenty-four-bit word.
pub const INDEXED_LONG: u32 = 0x80_0000;

/// The error for an instruction operand of the wrong shape.
pub open spec fn bad_operand(op: OpView, line_no: u32) -> AsmErrorView {
    AsmErrorView::InvalidOperandType {
        operation: op.name,
        expected: OperandKind::IntegerOrSymbol,
        line_no,
    }
}

/// The bytes of a statement without operands: the opcode, and for `RSUB`
/// two zero bytes after it.
pub open spec fn spec_opless(l: LineView) -> Result<Seq<u8>, AsmErrorView> {
    match l.operation {
        SourceOpView::Instruction(x) => Ok(
            if x.name == "RSUB"@ {
                seq![x.opcode, 0u8, 0u8]
            } else {
                seq![x.opcode]
            },
        ),
        _ => Err(AsmErrorView::InvalidOpcode { line_no: l.line_no }),
    }
}

/// The bytes of a register statement: the opcode, then the first register in
/// the high half of a byte and the second, if there is one, in the low half.
pub open spec fn spec_register(l: LineView) -> Result<Seq<u8>, AsmErrorView> {
    match l.operation {
        SourceOpView::Instruction(x) => {
            if l.args.len() == 1 && l.args[0].reg_code < 16 {
                Ok(seq![x.opcode, (l.args[0].reg_code * 16) as u8])
            } else if l.args.len() == 2 && l.args[0].reg_code < 16 && l.args[1].reg_code < 16 {
                Ok(seq![x.opcode, (l.args[0].reg_code * 16 + l.args[1].reg_code) as u8])
            } else {
                Err(AsmErrorView::InvalidRegisterOperand { line_no: l.line_no })
            }
        },
        _ => Err(AsmErrorView::InvalidOpcode { line_no: l.line_no }),
    }
}

/// The flagged twelve-bit field for a target that has to be reached by a
/// displacement: relative to the base register where one is set, else
/// relative to the address of the instruction itself.
pub open spec fn relative(target: int, base: u32, loc: u32) -> int {
    if base != NO_BASE {
        BASE_RELATIVE + (target - base) % 0x1000
    } else {
        COUNTER_RELATIVE + (target - loc) % 0x1000
    }
}

/// The three flag bits and the twelve-bit field that the first operand of a
/// three-byte instruction asks for.
pub open spec fn spec_field(
    a: OperandView,
    symtab: Map<Seq<char>, Pos>,
    base: u32,
    loc: u32,
    op: OpView,
    line_no: u32,
) -> Result<int, AsmErrorView> {
    match a.modifier {
        addr_mod::Direct | addr_mod::Indirect => match a.val {
            ArgView::Label(n) => if symtab.contains_key(n) {
                Ok(relative(symtab[n].target(), base, loc))
            } else {
                Err(AsmErrorView::UndefinedSymbolReference { name: n, line_no })
            },
            ArgView::IntLit(v) => Ok(relative(v as int, base, loc)),
            _ => Err(bad_operand(op, line_no)),
        },
        addr_mod::Immediate => match a.val {
            ArgView::Label(n) => if symtab.contains_key(n) {
                match symtab[n].val {
                    None => Ok(relative(symtab[n].mem_loc as int, base, loc)),
                    Some(v) => Ok(v as int % 0x1000),
                }
            } else {
                Err(AsmErrorView::UndefinedSymbolReference { name: n, line_no })
            },
            ArgView::IntLit(v) => if 0 <= v <= 0xFFF {
                Ok(v as int)
            } else {
                Err(AsmErrorView::DisplacementOverflow { line_no })
            },
            _ => Err(bad_operand(op, line_no)),
        },
        addr_mod::Literal => Err(bad_operand(op, line_no)),
    }
}

/// The bytes of a three-byte instruction.
pub open spec fn spec_normal(l: LineView, symtab: Map<Seq<char>, Pos>, base: u32) -> Result<
    Seq<u8>,
    AsmErrorView,
> {
    match l.operation {
        SourceOpView::Instruction(x) => {
            if l.args.len() != 1 && l.args.len() != 2 {
                Err(bad_operand(x, l.line_no))
            } else {
                match spec_field(l.args[0], symtab, base, l.mem_loc, x, l.line_no) {
                    Err(e) => Err(e),
                    Ok(field) => {
                        if l.args.len() == 2 && l.args[1].reg_code != INDEX_REGISTER {
                            Err(AsmErrorView::InvalidRegisterOperand { line_no: l.line_no })
                        } else {
                            let word = field + if l.args.len() == 2 {
                                INDEXED as int
                            } else {
                                0
                            };
                            Ok(
                                seq![
                                    x.opcode | l.args[0].modifier.spec_bits(),
                                    (word / 0x100) as u8,
                                    (word % 0x100) as u8,
                                ],
                            )
                        }
                    },
                }
            }
        },
        _ => Err(AsmErrorView::InvalidOpcode { line_no: l.line_no }),
    }
}

/// The twenty-bit absolute address that the first operand of a four-byte
/// instruction asks for.
pub open spec fn spec_address(
    a: OperandView,
    symtab: Map<Seq<char>, Pos>,
    op: OpView,
    line_no: u32,
) -> Result<int, AsmErrorView> {
    match a.modifier {
        addr_mod::Literal => Err(bad_operand(op, line_no)),
        _ => match a.val {
            ArgView::Label(n) => if symtab.contains_key(n) {
                Ok(symtab[n].mem_loc as int % 0x10_0000)
            } else {
                Err(AsmErrorView::UndefinedSymbolReference { name: n, line_no })
            },
            ArgView::IntLit(v) => Ok(v as int % 0x10_0000),
            _ => Err(bad_operand(op, line_no)),
        },
    }
}

/// The three bytes of a value below 2^24, most significant first.
pub open spec fn word_bytes(v: int) -> Seq<u8> {
    seq![(v / 0x1_0000) as u8, (v / 0x100 % 0x100) as u8, (v % 0x100) as u8]
}

/// The bytes of a four-byte instruction.
pub open spec fn spec_long(l: LineView, symtab: Map<Seq<char>, Pos>) -> Result<
    Seq<u8>,
    AsmErrorView,
> {
    match l.operation {
        SourceOpView::Instruction(x) => {
            if l.args.len() != 1 && l.args.len() != 2 {
                Err(bad_operand(x, l.line_no))
            } else {
                match spec_address(l.args[0], symtab, x, l.line_no) {
                    Err(e) => Err(e),
                    Ok(address) => {
                        if l.args.len() == 2 && l.args[1].reg_code != INDEX_REGISTER {
                            Err(AsmErrorView::InvalidRegisterOperand { line_no: l.line_no })
                        } else {
                            let word = EXTENDED + address + if l.args.len() == 2 {
                                INDEXED_LONG as int
                            } else {
                                0
                            };
                            Ok(
                                seq![x.opcode | l.args[0].modifier.spec_bits()] + word_bytes(
                                    word,
                                ),
                            )
                        }
                    },
                }
            }
        },
        _ => Err(AsmErrorView::InvalidOpcode { line_no: l.line_no }),
    }
}

/// Whether every operand is an integer literal.
pub open spec fn all_integers(args: Seq<OperandView>) -> bool {
    forall|i: int| 0 <= i < args.len() ==> (#[trigger] args[i]).val is IntLit
}

/// One byte for each integer operand: its value modulo 256.
pub open spec fn integer_bytes(args: Seq<OperandView>) -> Seq<u8> {
    Seq::new(args.len(), |i: int| (args[i].val->IntLit_0 as int % 0x100) as u8)
}

/// Three bytes for each integer operand: its value modulo 2^24, most
/// significant byte first.
pub open spec fn integer_words(args: Seq<OperandView>) -> Seq<u8>
    decreases args.len(),
{
    if args.len() == 0 {
        Seq::empty()
    } else {
        integer_words(args.drop_last()) + word_bytes(
            args.last().val->IntLit_0 as int % 0x100_0000,
        )
    }
}

/// The error for a directive operand of the wrong shape.
pub open spec fn bad_directive(name: Seq<char>, expected: OperandKind, line_no: u32)
    -> AsmErrorView {
    AsmErrorView::InvalidOperandType { operation: name, expected, line_no }
}

/// What a directive contributes: its bytes and the base register after it.
pub open spec fn spec_directive(l: LineView, symtab: Map<Seq<char>, Pos>, base: u32) -> Result<
    (Seq<u8>, u32),
    AsmErrorView,
> {
    let name = l.operation.directive_name();
    if name == "BYTE"@ {
        if l.args.len() == 0 {
            Err(bad_directive(name, OperandKind::IntegerOrString, l.line_no))
        } else if l.args[0].val is StrLit {
            Ok((vstd::utf8::encode_utf8(l.args[0].val->StrLit_0), base))
        } else if all_integers(l.args) {
            Ok((integer_bytes(l.args), base))
        } else {
            Err(bad_directive(name, OperandKind::Integer, l.line_no))
        }
    } else if name == "WORD"@ {
        if l.args.len() > 0 && all_integers(l.args) {
            Ok((integer_words(l.args), base))
        } else {
            Err(bad_directive(name, OperandKind::Integer, l.line_no))
        }
    } else if name == "BASE"@ {
        if l.args.len() > 0 && l.args[0].val is Label {
            let n = l.args[0].val->Label_0;
            if symtab.contains_key(n) {
                Ok((Seq::empty(), symtab[n].mem_loc))
            } else {
                Err(AsmErrorView::UndefinedSymbolReference { name: n, line_no: l.line_no })
            }
        } else {
            Err(bad_directive(name, OperandKind::Symbol, l.line_no))
        }
    } else if name == "NOBASE"@ {
        Ok((Seq::empty(), NO_BASE))
    } else {
        Ok((Seq::empty(), base))
    }
}

/// Bytes that leave the base register as it is.
pub open spec fn keeping(r: Result<Seq<u8>, AsmErrorView>, base: u32) -> Result<
    (Seq<u8>, u32),
    AsmErrorView,
> {
    match r {
        Ok(b) => Ok((b, base)),
        Err(e) => Err(e),
    }
}

/// The object bytes of a statement and the base register after it, or the
/// fault that keeps the statement from being encoded. The bytes depend on the
/// statement's layout, address, operation and operands, never on bytes that it
/// already carries.
pub open spec fn encode(l: LineView, symtab: Map<Seq<char>, Pos>, base: u32) -> Result<
    (Seq<u8>, u32),
    AsmErrorView,
> {
    match l.format {
        line::format::Opless => keeping(spec_opless(l), base),
        line::format::Register => keeping(spec_register(l), base),
        line::format::Normal => keeping(spec_normal(l, symtab, base), base),
        line::format::Long => keeping(spec_long(l, symtab), base),
        line::format::Directive => spec_directive(l, symtab, base),
        line::format::Unassigned | line::format::Comment => Ok((Seq::empty(), base)),
    }
}

/// Whether an executable result stands for a mathematical one.
pub open spec fn bytes_agree(r: Result<Vec<u8>, AsmError>, s: Result<Seq<u8>, AsmErrorView>)
    -> bool {
    match s {
        Ok(b) => r is Ok && r->Ok_0@ == b,
        Err(e) => r is Err && r->Err_0@ == e,
    }
}

/// Whether an executable number stands for a mathematical one.
pub open spec fn number_agrees(r: Result<u32, AsmError>, s: Result<int, AsmErrorView>) -> bool {
    match s {
        Ok(n) => r is Ok && r->Ok_0 == n,
        Err(e) => r is Err && r->Err_0@ == e,
    }
}

/// The remainder of `v` by a power of two, counted upwards from zero also
/// for a negative `v`.
fn remainder(v: i64, m: u64) -> (r: u32)
    requires
        -0x100_0000_0000 <= v < 0x100_0000_0000,
        m == 0x100 || m == 0x1000 || m == 0x10_0000 || m == 0x100_0000,
    ensures
        r == v as int % m as int,
{
    let e: u64 = (v + 0x100_0000_0000) as u64;
    if m == 0x100 {
        (e % 0x100) as u32
    } else if m == 0x1000 {
        (e % 0x1000) as u32
    } else if m == 0x10_0000 {
        (e % 0x10_0000) as u32
    } else {
        (e % 0x100_0000) as u32
    }
}

fn operand_fault(op: &op_struct, line_no: u32) -> (e: AsmError)
    ensures
        e@ == bad_operand(op@, line_no),
{
    AsmError::InvalidOperandType {
        operation: op.name,
        expected: OperandKind::IntegerOrSymbol,
        line_no,
    }
}

fn encode_opless(curr: &Line) -> (r: Result<Vec<u8>, AsmError>)
    ensures
        bytes_agree(r, spec_opless(curr@)),
{
    match curr.operation {
        source_op::Instruction(x) => {
            let mut out: Vec<u8> = Vec::new();
            out.push(x.opcode);
            if str_eq(x.name, "RSUB") {
                out.push(0);
                out.push(0);
                assert(out@ =~= seq![x.opcode, 0u8, 0u8]);
            }
            Ok(out)
        },
        _ => Err(AsmError::InvalidOpcode { line_no: curr.line_no }),
    }
}

fn encode_register(curr: &Line) -> (r: Result<Vec<u8>, AsmError>)
    ensures
        bytes_agree(r, spec_register(curr@)),
{
    match curr.operation {
        source_op::Instruction(x) => {
            let n = curr.args.len();
            if n == 1 && curr.args[0].reg_code < 16 {
                let mut out: Vec<u8> = Vec::new();
                out.push(x.opcode);
                out.push(curr.args[0].reg_code * 16);
                assert(out@ =~= seq![x.opcode, (curr@.args[0].reg_code * 16) as u8]);
                Ok(out)
            } else if n == 2 && curr.args[0].reg_code < 16 && curr.args[1].reg_code < 16 {
                let mut out: Vec<u8> = Vec::new();
                out.push(x.opcode);
                out.push(curr.args[0].reg_code * 16 + curr.args[1].reg_code);
                assert(out@ =~= seq![
                    x.opcode,
                    (curr@.args[0].reg_code * 16 + curr@.args[1].reg_code) as u8,
                ]);
                Ok(out)
            } else {
                Err(AsmError::InvalidRegisterOperand { line_no: curr.line_no })
            }
        },
        _ => Err(AsmError::InvalidOpcode { line_no: curr.line_no }),
    }
}

fn relative_field(target: i64, base: u32, loc: u32) -> (r: u32)
    requires
        -0x8000_0000 <= target < 0x1_0000_0000,
    ensures
        r == relative(target as int, base, loc),
{
    if base != NO_BASE {
        BASE_RELATIVE as u32 + remainder(target - base as i64, 0x1000)
    } else {
        COUNTER_RELATIVE as u32 + remainder(target - loc as i64, 0x1000)
    }
}

fn undefined(name: &String, line_no: u32) -> (e: AsmError)
    ensures
        e@ == (AsmErrorView::UndefinedSymbolReference { name: name@, line_no }),
{
    AsmError::UndefinedSymbolReference { name: name.clone(), line_no }
}

fn field_of(a: &arg_struct, symtab: &Symtab, base: u32, loc: u32, op: &op_struct, line_no: u32)
    -> (r: Result<u32, AsmError>)
    ensures
        number_agrees(r, spec_field(a@, symtab@, base, loc, op@, line_no)),
        r matches Ok(n) ==> n < 0x8000,
{
    match a.modifier {
        addr_mod::Direct | addr_mod::Indirect => match &a.val {
            arg::Label(n) => match symtab.get(n.as_str()) {
                Some(p) => {
                    let t: i64 = match p.val {
                        Some(v) => v as i64,
                        None => p.mem_loc as i64,
                    };
                    Ok(relative_field(t, base, loc))
                },
                None => Err(undefined(n, line_no)),
            },
            arg::IntLit(v) => Ok(relative_field(*v as i64, base, loc)),
            _ => Err(operand_fault(op, line_no)),
        },
        addr_mod::Immediate => match &a.val {
            arg::Label(n) => match symtab.get(n.as_str()) {
                Some(p) => match p.val {
                    None => Ok(relative_field(p.mem_loc as i64, base, loc)),
                    Some(v) => Ok(remainder(v as i64, 0x1000)),
                },
                None => Err(undefined(n, line_no)),
            },
            arg::IntLit(v) => if 0 <= *v && *v <= 0xFFF {
                Ok(*v as u32)
            } else {
                Err(AsmError::DisplacementOverflow { line_no })
            },
            _ => Err(operand_fault(op, line_no)),
        },
        addr_mod::Literal => Err(operand_fault(op, line_no)),
    }
}

fn encode_normal(curr: &Line, symtab: &Symtab, base: u32) -> (r: Result<Vec<u8>, AsmError>)
    ensures
        bytes_agree(r, spec_normal(curr@, symtab@, base)),
{
    match curr.operation {
        source_op::Instruction(x) => {
            let n = curr.args.len();
            if n != 1 && n != 2 {
                return Err(operand_fault(&x, curr.line_no));
            }
            let field = field_of(&curr.args[0], symtab, base, curr.mem_loc, &x, curr.line_no)?;
            if n == 2 && curr.args[1].reg_code != INDEX_REGISTER {
                return Err(AsmError::InvalidRegisterOperand { line_no: curr.line_no });
            }
            let word: u32 = if n == 2 {
                field + INDEXED as u32
            } else {
                field
            };
            let mut out: Vec<u8> = Vec::new();
            out.push(x.opcode | curr.args[0].modifier.bits());
            out.push((word / 0x100) as u8);
            out.push((word % 0x100) as u8);
            assert(out@ =~= seq![
                x.opcode | curr@.args[0].modifier.spec_bits(),
                (word as int / 0x100) as u8,
                (word as int % 0x100) as u8,
            ]);
            Ok(out)
        },
        _ => Err(AsmError::InvalidOpcode { line_no: curr.line_no }),
    }
}

fn address_of(a: &arg_struct, symtab: &Symtab, op: &op_struct, line_no: u32) -> (r: Result<
    u32,
    AsmError,
>)
    ensures
        number_agrees(r, spec_address(a@, symtab@, op@, line_no)),
        r matches Ok(n) ==> n < 0x10_0000,
{
    match a.modifier {
        addr_mod::Literal => Err(operand_fault(op, line_no)),
        _ => match &a.val {
            arg::Label(n) => match symtab.get(n.as_str()) {
                Some(p) => Ok(p.mem_loc % 0x10_0000),
                None => Err(undefined(n, line_no)),
            },
            arg::IntLit(v) => Ok(remainder(*v as i64, 0x10_0000)),
            _ => Err(operand_fault(op, line_no)),
        },
    }
}

/// Appends the three bytes of a value below 2^24, most significant first.
fn push_word_bytes(out: &mut Vec<u8>, v: u32)
    requires
        v < 0x100_0000,
    ensures
        final(out)@ == old(out)@ + word_bytes(v as int),
{
    out.push((v / 0x1_0000) as u8);
    out.push((v / 0x100 % 0x100) as u8);
    out.push((v % 0x100) as u8);
}

fn encode_long(curr: &Line, symtab: &Symtab) -> (r: Result<Vec<u8>, AsmError>)
    ensures
        bytes_agree(r, spec_long(curr@, symtab@)),
{
    match curr.operation {
        source_op::Instruction(x) => {
            let n = curr.args.len();
            if n != 1 && n != 2 {
                return Err(operand_fault(&x, curr.line_no));
            }
            let address = address_of(&curr.args[0], symtab, &x, curr.line_no)?;
            if n == 2 && curr.args[1].reg_code != INDEX_REGISTER {
                return Err(AsmError::InvalidRegisterOperand { line_no: curr.line_no });
            }
            let word: u32 = if n == 2 {
                EXTENDED + address + INDEXED_LONG
            } else {
                EXTENDED + address
            };
            let mut out: Vec<u8> = Vec::new();
            out.push(x.opcode | curr.args[0].modifier.bits());
            push_word_bytes(&mut out, word);
            Ok(out)
        },
        _ => Err(AsmError::InvalidOpcode { line_no: curr.line_no }),
    }
}

fn directive_fault(name: &'static str, expected: OperandKind, line_no: u32) -> (e: AsmError)
    ensures
        e@ == bad_directive(name@, expected, line_no),
{
    AsmError::InvalidOperandType { operation: name, expected, line_no }
}

/// Whether every operand is an integer literal.
fn only_integers(args: &Vec<arg_struct>) -> (r: bool)
    ensures
        r == all_integers(operands_view(args@)),
{
    let mut i: usize = 0;
    while i < args.len()
        invariant
            i <= args.len(),
            forall|k: int| 0 <= k < i ==> (#[trigger] operands_view(args@)[k]).val is IntLit,
        decreases args.len() - i,
    {
        match &args[i].val {
            arg::IntLit(_) => {},
            _ => {
                assert(!(operands_view(args@)[i as int].val is IntLit));
                return false;
            },
        }
        i = i + 1;
    }
    true
}

fn byte_payload(args: &Vec<arg_struct>) -> (out: Vec<u8>)
    requires
        all_integers(operands_view(args@)),
    ensures
        out@ == integer_bytes(operands_view(args@)),
{
    let mut out: Vec<u8> = Vec::new();
    let mut i: usize = 0;
    while i < args.len()
        invariant
            i <= args.len(),
            all_integers(operands_view(args@)),
            out.len() == i,
            forall|k: int| 0 <= k < i ==> out[k] == integer_bytes(operands_view(args@))[k],
        decreases args.len() - i,
    {
        assert(operands_view(args@)[i as int].val is IntLit);
        if let arg::IntLit(v) = &args[i].val {
            out.push(remainder(*v as i64, 0x100) as u8);
        }
        i = i + 1;
    }
    out
}

fn word_payload(args: &Vec<arg_struct>) -> (out: Vec<u8>)
    requires
        all_integers(operands_view(args@)),
    ensures
        out@ == integer_words(operands_view(args@)),
{
    let ghost all = operands_view(args@);
    let mut out: Vec<u8> = Vec::new();
    let mut i: usize = 0;
    while i < args.len()
        invariant
            i <= args.len(),
            all == operands_view(args@),
            all_integers(all),
            out@ == integer_words(all.subrange(0, i as int)),
        decreases args.len() - i,
    {
        assert(all.subrange(0, i + 1).drop_last() =~= all.subrange(0, i as int));
        if let arg::IntLit(v) = &args[i].val {
            push_word_bytes(&mut out, remainder(*v as i64, 0x100_0000));
        }
        i = i + 1;
    }
    assert(all.subrange(0, i as int) =~= all);
    out
}

fn encode_directive(curr: &Line, symtab: &Symtab, base: u32) -> (r: Result<
    (Vec<u8>, u32),
    AsmError,
>)
    ensures
        match spec_directive(curr@, symtab@, base) {
            Ok((b, nb)) => r is Ok && r->Ok_0.0@ == b && r->Ok_0.1 == nb,
            Err(e) => r is Err && r->Err_0@ == e,
        },
{
    let x = match curr.operation {
        source_op::Directive(x) => x,
        _ => {
            proof {
                reveal_strlit("not directive");
                reveal_strlit("BYTE");
                reveal_strlit("WORD");
                reveal_strlit("BASE");
                reveal_strlit("NOBASE");
                let name = curr@.operation.directive_name();
                assert(name == "not directive"@);
            }
            return Ok((Vec::new(), base));
        },
    };
    let line_no = curr.line_no;
    if str_eq(x.name, "BYTE") {
        if curr.args.len() == 0 {
            return Err(directive_fault(x.name, OperandKind::IntegerOrString, line_no));
        }
        match &curr.args[0].val {
            arg::StrLit(s) => Ok((s.as_str().as_bytes_vec(), base)),
            _ => if only_integers(&curr.args) {
                Ok((byte_payload(&curr.args), base))
            } else {
                Err(directive_fault(x.name, OperandKind::Integer, line_no))
            },
        }
    } else if str_eq(x.name, "WORD") {
        if curr.args.len() > 0 && only_integers(&curr.args) {
            Ok((word_payload(&curr.args), base))
        } else {
            Err(directive_fault(x.name, OperandKind::Integer, line_no))
        }
    } else if str_eq(x.name, "BASE") {
        if curr.args.len() == 0 {
            return Err(directive_fault(x.name, OperandKind::Symbol, line_no));
        }
        match &curr.args[0].val {
            arg::Label(n) => match symtab.get(n.as_str()) {
                Some(p) => Ok((Vec::new(), p.mem_loc)),
                None => Err(undefined(n, line_no)),
            },
            _ => Err(directive_fault(x.name, OperandKind::Symbol, line_no)),
        }
    } else if str_eq(x.name, "NOBASE") {
        Ok((Vec::new(), NO_BASE))
    } else {
        Ok((Vec::new(), base))
    }
}

/// The object bytes of a statement and the base register after it. Nothing
/// is changed.
pub fn encoding(curr: &Line, symtab: &Symtab, base: u32) -> (r: Result<(Vec<u8>, u32), AsmError>)
    ensures
        match encode(curr@, symtab@, base) {
            Ok((bytes, next)) => r is Ok && r->Ok_0.0@ == bytes && r->Ok_0.1 == next,
            Err(e) => r is Err && r->Err_0@ == e,
        },
{
    match curr.format {
        line::format::Opless => match encode_opless(curr) {
            Ok(v) => Ok((v, base)),
            Err(e) => Err(e),
        },
        line::format::Register => match encode_register(curr) {
            Ok(v) => Ok((v, base)),
            Err(e) => Err(e),
        },
        line::format::Normal => match encode_normal(curr, symtab, base) {
            Ok(v) => Ok((v, base)),
            Err(e) => Err(e),
        },
        line::format::Long => match encode_long(curr, symtab) {
            Ok(v) => Ok((v, base)),
            Err(e) => Err(e),
        },
        line::format::Directive => encode_directive(curr, symtab, base),
        line::format::Unassigned | line::format::Comment => Ok((Vec::new(), base)),
    }
}

/// Encodes one statement: its bytes are added to the end of the statement's
/// payload, and a `BASE` or `NOBASE` directive sets the running base
/// register. Nothing else of the statement changes. On a fault the statement
/// and the base register are left as they were.
pub fn gen_obj_code(curr: &mut Line, symtab: &Symtab, base: &mut u32) -> (r: Result<
    (),
    AsmError,
>)
    ensures
        match encode(old(curr)@, symtab@, *old(base)) {
            Ok((bytes, next)) => {
                &&& r is Ok
                &&& final(curr)@ == (LineView {
                    obj_code: old(curr)@.obj_code + bytes,
                    ..old(curr)@
                })
                &&& *final(base) == next
            },
            Err(e) => {
                &&& r is Err
                &&& r->Err_0@ == e
                &&& final(curr)@ == old(curr)@
                &&& *final(base) == *old(base)
            },
        },
{
    match encoding(curr, symtab, *base) {
        Ok((bytes, next)) => {
            let mut added = bytes;
            curr.obj_code.append(&mut added);
            *base = next;
            Ok(())
        },
        Err(e) => Err(e),
    }
}

/// The payloads of a sequence of statements, encoded in order with the base
/// register handed from each to the next, or the first fault.
pub open spec fn payloads(lines: Seq<LineView>, symtab: Map<Seq<char>, Pos>, base: u32) -> Result<
    Seq<Seq<u8>>,
    AsmErrorView,
>
    decreases lines.len(),
{
    if lines.len() == 0 {
        Ok(Seq::empty())
    } else {
        match encode(lines[0], symtab, base) {
            Err(e) => Err(e),
            Ok((bytes, next)) => match payloads(lines.drop_first(), symtab, next) {
                Err(e) => Err(e),
                Ok(rest) => Ok(seq![bytes] + rest),
            },
        }
    }
}

/// The statements with the given bytes added to the end of their payloads.
pub open spec fn with_payloads(lines: Seq<LineView>, p: Seq<Seq<u8>>) -> Seq<LineView> {
    Seq::new(lines.len(), |i: int| LineView { obj_code: lines[i].obj_code + p[i], ..lines[i] })
}

/// The statements after the second pass, which starts with no base set, or
/// the first fault.
pub open spec fn encoded(lines: Seq<LineView>, symtab: Map<Seq<char>, Pos>) -> Result<
    Seq<LineView>,
    AsmErrorView,
> {
    match payloads(lines, symtab, NO_BASE) {
        Ok(p) => Ok(with_payloads(lines, p)),
        Err(e) => Err(e),
    }
}

/// There is one payload for every statement.
pub proof fn lemma_payloads_len(lines: Seq<LineView>, symtab: Map<Seq<char>, Pos>, base: u32)
    ensures
        payloads(lines, symtab, base) matches Ok(p) ==> p.len() == lines.len(),
    decreases lines.len(),
{
    if lines.len() > 0 {
        if let Ok((bytes, next)) = encode(lines[0], symtab, base) {
            lemma_payloads_len(lines.drop_first(), symtab, next);
        }
    }
}

/// Payloads that follow the ones already made.
pub open spec fn after(done: Seq<Seq<u8>>, r: Result<Seq<Seq<u8>>, AsmErrorView>) -> Result<
    Seq<Seq<u8>>,
    AsmErrorView,
> {
    match r {
        Ok(rest) => Ok(done + rest),
        Err(e) => Err(e),
    }
}

/// The views of a sequence of statements, in order.
pub open spec fn lines_view(v: Seq<Line>) -> Seq<LineView> {
    Seq::new(v.len(), |i: int| v[i]@)
}

/// The second pass: every statement is encoded, in order. Either every
/// statement gets its bytes added to the end of its payload, or a fault is
/// returned and none is changed.
pub fn encode_all(lines: &mut Vec<Line>, symtab: &Symtab) -> (r: Result<(), AsmError>)
    ensures
        match encoded(lines_view(old(lines)@), symtab@) {
            Ok(v) => r is Ok && lines_view(final(lines)@) == v,
            Err(e) => r is Err && r->Err_0@ == e && lines_view(final(lines)@) == lines_view(
                old(lines)@,
            ),
        },
{
    let ghost all = lines_view(lines@);
    let mut made: Vec<Vec<u8>> = Vec::new();
    let mut base = NO_BASE;
    let mut i: usize = 0;
    assert(all.subrange(0, all.len() as int) =~= all);
    while i < lines.len()
        invariant
            i <= lines.len(),
            lines@ == old(lines)@,
            all == lines_view(lines@),
            made.len() == i,
            after(
                Seq::new(i as nat, |k: int| made[k]@),
                payloads(all.subrange(i as int, all.len() as int), symtab@, base),
            ) == payloads(all, symtab@, NO_BASE),
        decreases lines.len() - i,
    {
        let ghost rest = all.subrange(i as int, all.len() as int);
        let ghost done = Seq::new(i as nat, |k: int| made[k]@);
        assert(rest.drop_first() =~= all.subrange(i + 1, all.len() as int));
        match encoding(&lines[i], symtab, base) {
            Err(e) => {
                return Err(e);
            },
            Ok((bytes, next)) => {
                proof {
                    let tail = payloads(rest.drop_first(), symtab@, next);
                    if let Ok(t) = tail {
                        assert(done + (seq![bytes@] + t) =~= done.push(bytes@) + t);
                    }
                }
                made.push(bytes);
                base = next;
                assert(Seq::new((i + 1) as nat, |k: int| made[k]@) =~= done.push(bytes@));
            },
        }
        i = i + 1;
    }
    let ghost p = Seq::new(i as nat, |k: int| made[k]@);
    assert(payloads(all, symtab@, NO_BASE) == Ok::<Seq<Seq<u8>>, AsmErrorView>(p)) by {
        assert(all.subrange(i as int, all.len() as int) =~= Seq::<LineView>::empty());
        assert(p + Seq::<Seq<u8>>::empty() =~= p);
    }
    let mut k: usize = 0;
    while k < lines.len()
        invariant
            k <= lines.len(),
            lines.len() == old(lines).len(),
            made.len() == lines.len(),
            all == lines_view(old(lines)@),
            p == Seq::new(made.len() as nat, |j: int| made[j]@),
            forall|j: int| 0 <= j < k ==> (#[trigger] lines[j])@ == (LineView {
                obj_code: all[j].obj_code + p[j],
                ..all[j]
            }),
            forall|j: int| k <= j < lines.len() ==> (#[trigger] lines[j])@ == all[j],
        decreases lines.len() - k,
    {
        let mut added = made[k].clone();
        lines[k].obj_code.append(&mut added);
        k = k + 1;
    }
    Ok(())
}

} // verus!