//! The operation tables: every directive and instruction mnemonic with its
//! code.

use crate::line::{op_struct, source_op, OpView, SourceOpView};
use crate::text::str_eq;
use vstd::prelude::*;

verus! {

/// The table entry of a directive, by its mnemonic in upper case.
pub open spec fn directive_entry(w: Seq<char>) -> Option<OpView> {
    if w == "START"@ {
        Some(OpView { opcode: 0x01, name: "START"@, long: false })
    } else if w == "END"@ {
        Some(OpView { opcode: 0x02, name: "END"@, long: false })
    } else if w == "BYTE"@ {
        Some(OpView { opcode: 0x03, name: "BYTE"@, long: false })
    } else if w == "WORD"@ {
        Some(OpView { opcode: 0x04, name: "WORD"@, long: false })
    } else if w == "RESB"@ {
        Some(OpView { opcode: 0x05, name: "RESB"@, long: false })
    } else if w == "RESW"@ {
        Some(OpView { opcode: 0x06, name: "RESW"@, long: false })
    } else if w == "BASE"@ {
        Some(OpView { opcode: 0x07, name: "BASE"@, long: false })
    } else if w == "NOBASE"@ {
        Some(OpView { opcode: 0x08, name: "NOBASE"@, long: false })
    } else if w == "EQU"@ {
        Some(OpView { opcode: 0x09, name: "EQU"@, long: false })
    } else {
        None
    }
}

/// The table entry of an instruction, by its mnemonic in upper case.
pub open spec fn instruction_entry(w: Seq<char>) -> Option<OpView> {
    if w == "ADD"@ {
        Some(OpView { opcode: 0x18, name: "ADD"@, long: false })
    } else if w == "ADDR"@ {
        Some(OpView { opcode: 0x90, name: "ADDR"@, long: false })
    } else if w == "AND"@ {
        Some(OpView { opcode: 0x40, name: "AND"@, long: false })
    } else if w == "CLEAR"@ {
        Some(OpView { opcode: 0xB4, name: "CLEAR"@, long: false })
    } else if w == "COMP"@ {
        Some(OpView { opcode: 0x28, name: "COMP"@, long: false })
    } else if w == "COMPR"@ {
        Some(OpView { opcode: 0x88, name: "COMPR"@, long: false })
    } else if w == "DIV"@ {
        Some(OpView { opcode: 0xA0, name: "DIV"@, long: false })
    } else if w == "DIVR"@ {
        Some(OpView { opcode: 0x64, name: "DIVR"@, long: false })
    } else if w == "HIO"@ {
        Some(OpView { opcode: 0xF4, name: "HIO"@, long: false })
    } else if w == "JEQ"@ {
        Some(OpView { opcode: 0x30, name: "JEQ"@, long: false })
    } else if w == "JLT"@ {
        Some(OpView { opcode: 0x34, name: "JLT"@, long: false })
    } else if w == "JGT"@ {
        Some(OpView { opcode: 0x38, name: "JGT"@, long: false })
    } else if w == "JSUB"@ {
        Some(OpView { opcode: 0x48, name: "JSUB"@, long: false })
    } else if w == "J"@ {
        Some(OpView { opcode: 0x3C, name: "J"@, long: false })
    } else if w == "LDA"@ {
        Some(OpView { opcode: 0x00, name: "LDA"@, long: false })
    } else if w == "LDB"@ {
        Some(OpView { opcode: 0x68, name: "LDB"@, long: false })
    } else if w == "LDCH"@ {
        Some(OpView { opcode: 0x50, name: "LDCH"@, long: false })
    } else if w == "LDL"@ {
        Some(OpView { opcode: 0x08, name: "LDL"@, long: false })
    } else if w == "LDS"@ {
        Some(OpView { opcode: 0x6C, name: "LDS"@, long: false })
    } else if w == "LDT"@ {
        Some(OpView { opcode: 0x74, name: "LDT"@, long: false })
    } else if w == "LDX"@ {
        Some(OpView { opcode: 0x04, name: "LDX"@, long: false })
    } else if w == "LPS"@ {
        Some(OpView { opcode: 0xD0, name: "LPS"@, long: false })
    } else if w == "MUL"@ {
        Some(OpView { opcode: 0x20, name: "MUL"@, long: false })
    } else if w == "MULR"@ {
        Some(OpView { opcode: 0x98, name: "MULR"@, long: false })
    } else if w == "OR"@ {
        Some(OpView { opcode: 0x44, name: "OR"@, long: false })
    } else if w == "RD"@ {
        Some(OpView { opcode: 0xD8, name: "RD"@, long: false })
    } else if w == "RMO"@ {
        Some(OpView { opcode: 0xAC, name: "RMO"@, long: false })
    } else if w == "RSUB"@ {
        Some(OpView { opcode: 0x4C, name: "RSUB"@, long: false })
    } else if w == "SHIFTL"@ {
        Some(OpView { opcode: 0xA4, name: "SHIFTL"@, long: false })
    } else if w == "SHIFTR"@ {
        Some(OpView { opcode: 0xA8, name: "SHIFTR"@, long: false })
    } else if w == "SIO"@ {
        Some(OpView { opcode: 0xF0, name: "SIO"@, long: false })
    } else if w == "SSK"@ {
        Some(OpView { opcode: 0xEC, name: "SSK"@, long: false })
    } else if w == "STA"@ {
        Some(OpView { opcode: 0x0C, name: "STA"@, long: false })
    } else if w == "STB"@ {
        Some(OpView { opcode: 0x78, name: "STB"@, long: false })
    } else if w == "STCH"@ {
        Some(OpView { opcode: 0x54, name: "STCH"@, long: false })
    } else if w == "STI"@ {
        Some(OpView { opcode: 0xD4, name: "STI"@, long: false })
    } else if w == "STL"@ {
        Some(OpView { opcode: 0x14, name: "STL"@, long: false })
    } else if w == "STS"@ {
        Some(OpView { opcode: 0x7C, name: "STS"@, long: false })
    } else if w == "STSW"@ {
        Some(OpView { opcode: 0xE8, name: "STSW"@, long: false })
    } else if w == "STT"@ {
        Some(OpView { opcode: 0x84, name: "STT"@, long: false })
    } else if w == "STX"@ {
        Some(OpView { opcode: 0x10, name: "STX"@, long: false })
    } else if w == "SUB"@ {
        Some(OpView { opcode: 0x1C, name: "SUB"@, long: false })
    } else if w == "SUBR"@ {
        Some(OpView { opcode: 0x94, name: "SUBR"@, long: false })
    } else if w == "SVC"@ {
        Some(OpView { opcode: 0xB0, name: "SVC"@, long: false })
    } else if w == "TD"@ {
        Some(OpView { opcode: 0xE0, name: "TD"@, long: false })
    } else if w == "TIO"@ {
        Some(OpView { opcode: 0xF8, name: "TIO"@, long: false })
    } else if w == "TIX"@ {
        Some(OpView { opcode: 0x2C, name: "TIX"@, long: false })
    } else if w == "TIXR"@ {
        Some(OpView { opcode: 0xB8, name: "TIXR"@, long: false })
    } else if w == "WD"@ {
        Some(OpView { opcode: 0xDC, name: "WD"@, long: false })
    } else {
        None
    }
}

/// Whether a word, in upper case, is reserved as a mnemonic.
pub open spec fn reserved(w: Seq<char>) -> bool {
    directive_entry(w) is Some || instruction_entry(w) is Some
}

/// The directive of a mnemonic.
pub open spec fn spec_asm_directive(w: Seq<char>) -> Option<SourceOpView> {
    match directive_entry(w) {
        Some(x) => Some(SourceOpView::Directive(x)),
        None => None,
    }
}

/// The instruction of a mnemonic, marked for the extended layout if `long`
/// is set.
pub open spec fn spec_instruction(w: Seq<char>, long: bool) -> Option<SourceOpView> {
    match instruction_entry(w) {
        Some(x) => Some(SourceOpView::Instruction(OpView { long, ..x })),
        None => None,
    }
}

fn find_directive(w: &str) -> (r: Option<op_struct>)
    ensures
        match directive_entry(w@) {
            Some(x) => r is Some && r->0@ == x,
            None => r is None,
        },
{
    if str_eq(w, "START") {
        Some(op_struct::new(0x01, "START"))
    } else if str_eq(w, "END") {
        Some(op_struct::new(0x02, "END"))
    } else if str_eq(w, "BYTE") {
        Some(op_struct::new(0x03, "BYTE"))
    } else if str_eq(w, "WORD") {
        Some(op_struct::new(0x04, "WORD"))
    } else if str_eq(w, "RESB") {
        Some(op_struct::new(0x05, "RESB"))
    } else if str_eq(w, "RESW") {
        Some(op_struct::new(0x06, "RESW"))
    } else if str_eq(w, "BASE") {
        Some(op_struct::new(0x07, "BASE"))
    } else if str_eq(w, "NOBASE") {
        Some(op_struct::new(0x08, "NOBASE"))
    } else if str_eq(w, "EQU") {
        Some(op_struct::new(0x09, "EQU"))
    } else {
        None
    }
}

fn find_instruction(w: &str) -> (r: Option<op_struct>)
    ensures
        match instruction_entry(w@) {
            Some(x) => r is Some && r->0@ == x,
            None => r is None,
        },
{
    if str_eq(w, "ADD") {
        Some(op_struct::new(0x18, "ADD"))
    } else if str_eq(w, "ADDR") {
        Some(op_struct::new(0x90, "ADDR"))
    } else if str_eq(w, "AND") {
        Some(op_struct::new(0x40, "AND"))
    } else if str_eq(w, "CLEAR") {
        Some(op_struct::new(0xB4, "CLEAR"))
    } else if str_eq(w, "COMP") {
        Some(op_struct::new(0x28, "COMP"))
    } else if str_eq(w, "COMPR") {
        Some(op_struct::new(0x88, "COMPR"))
    } else if str_eq(w, "DIV") {
        Some(op_struct::new(0xA0, "DIV"))
    } else if str_eq(w, "DIVR") {
        Some(op_struct::new(0x64, "DIVR"))
    } else if str_eq(w, "HIO") {
        Some(op_struct::new(0xF4, "HIO"))
    } else if str_eq(w, "JEQ") {
        Some(op_struct::new(0x30, "JEQ"))
    } else if str_eq(w, "JLT") {
        Some(op_struct::new(0x34, "JLT"))
    } else if str_eq(w, "JGT") {
        Some(op_struct::new(0x38, "JGT"))
    } else if str_eq(w, "JSUB") {
        Some(op_struct::new(0x48, "JSUB"))
    } else if str_eq(w, "J") {
        Some(op_struct::new(0x3C, "J"))
    } else if str_eq(w, "LDA") {
        Some(op_struct::new(0x00, "LDA"))
    } else if str_eq(w, "LDB") {
        Some(op_struct::new(0x68, "LDB"))
    } else if str_eq(w, "LDCH") {
        Some(op_struct::new(0x50, "LDCH"))
    } else if str_eq(w, "LDL") {
        Some(op_struct::new(0x08, "LDL"))
    } else if str_eq(w, "LDS") {
        Some(op_struct::new(0x6C, "LDS"))
    } else if str_eq(w, "LDT") {
        Some(op_struct::new(0x74, "LDT"))
    } else if str_eq(w, "LDX") {
        Some(op_struct::new(0x04, "LDX"))
    } else if str_eq(w, "LPS") {
        Some(op_struct::new(0xD0, "LPS"))
    } else if str_eq(w, "MUL") {
        Some(op_struct::new(0x20, "MUL"))
    } else if str_eq(w, "MULR") {
        Some(op_struct::new(0x98, "MULR"))
    } else if str_eq(w, "OR") {
        Some(op_struct::new(0x44, "OR"))
    } else if str_eq(w, "RD") {
        Some(op_struct::new(0xD8, "RD"))
    } else if str_eq(w, "RMO") {
        Some(op_struct::new(0xAC, "RMO"))
    } else if str_eq(w, "RSUB") {
        Some(op_struct::new(0x4C, "RSUB"))
    } else if str_eq(w, "SHIFTL") {
        Some(op_struct::new(0xA4, "SHIFTL"))
    } else if str_eq(w, "SHIFTR") {
        Some(op_struct::new(0xA8, "SHIFTR"))
    } else if str_eq(w, "SIO") {
        Some(op_struct::new(0xF0, "SIO"))
    } else if str_eq(w, "SSK") {
        Some(op_struct::new(0xEC, "SSK"))
    } else if str_eq(w, "STA") {
        Some(op_struct::new(0x0C, "STA"))
    } else if str_eq(w, "STB") {
        Some(op_struct::new(0x78, "STB"))
    } else if str_eq(w, "STCH") {
        Some(op_struct::new(0x54, "STCH"))
    } else if str_eq(w, "STI") {
        Some(op_struct::new(0xD4, "STI"))
    } else if str_eq(w, "STL") {
        Some(op_struct::new(0x14, "STL"))
    } else if str_eq(w, "STS") {
        Some(op_struct::new(0x7C, "STS"))
    } else if str_eq(w, "STSW") {
        Some(op_struct::new(0xE8, "STSW"))
    } else if str_eq(w, "STT") {
        Some(op_struct::new(0x84, "STT"))
    } else if str_eq(w, "STX") {
        Some(op_struct::new(0x10, "STX"))
    } else if str_eq(w, "SUB") {
        Some(op_struct::new(0x1C, "SUB"))
    } else if str_eq(w, "SUBR") {
        Some(op_struct::new(0x94, "SUBR"))
    } else if str_eq(w, "SVC") {
        Some(op_struct::new(0xB0, "SVC"))
    } else if str_eq(w, "TD") {
        Some(op_struct::new(0xE0, "TD"))
    } else if str_eq(w, "TIO") {
        Some(op_struct::new(0xF8, "TIO"))
    } else if str_eq(w, "TIX") {
        Some(op_struct::new(0x2C, "TIX"))
    } else if str_eq(w, "TIXR") {
        Some(op_struct::new(0xB8, "TIXR"))
    } else if str_eq(w, "WD") {
        Some(op_struct::new(0xDC, "WD"))
    } else {
        None
    }
}

/// Looks a mnemonic, given in upper case, up in the table of directives.
pub fn asm_directive(w: &str) -> (r: Option<source_op>)
    ensures
        match spec_asm_directive(w@) {
            Some(op) => r is Some && r->0@ == op,
            None => r is None,
        },
{
    match find_directive(w) {
        Some(x) => Some(source_op::Directive(x)),
        None => None,
    }
}

/// Looks a mnemonic, given in upper case, up in the table of instructions.
pub fn instruction(w: &str, long: bool) -> (r: Option<source_op>)
    ensures
        match spec_instruction(w@, long) {
            Some(op) => r is Some && r->0@ == op,
            None => r is None,
        },
{
    match find_instruction(w) {
        Some(x) => Some(source_op::Instruction(x).instr_long_mode(long)),
        None => None,
    }
}

} // verus!
