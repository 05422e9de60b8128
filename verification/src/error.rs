//! The diagnostics that the passes report.

use crate::text::{push_decimal, spec_decimal};
use vstd::prelude::*;

verus! {

/// The kind of operand that a statement was expected to carry.
#[derive(Debug, Clone, Copy, PartialEq, Eq)]
pub enum OperandKind {
    Integer,
    IntegerOrString,
    IntegerOrSymbol,
    Symbol,
}

/// A diagnostic of one of the passes. Every variant names the source line
/// that it is about.
#[derive(Debug, Clone, PartialEq, Eq)]
pub enum AsmError {
    /// A label was defined again on `second_line`.
    DuplicateSymbol { name: String, first_line: u32, second_line: u32 },
    /// A directive that needs a label has none.
    MissingRequiredLabel { directive: &'static str, line_no: u32 },
    /// An operation got operands of the wrong kind or number.
    InvalidOperandType { operation: &'static str, expected: OperandKind, line_no: u32 },
    /// An operand names a symbol that the symbol table does not hold.
    UndefinedSymbolReference { name: String, line_no: u32 },
    /// The line's operation is no known mnemonic.
    InvalidOpcode { line_no: u32 },
    /// A value does not fit the displacement field.
    DisplacementOverflow { line_no: u32 },
    /// A register operand is not acceptable where it stands.
    InvalidRegisterOperand { line_no: u32 },
}

/// The mathematical value of an [`AsmError`].
pub enum AsmErrorView {
    DuplicateSymbol { name: Seq<char>, first_line: u32, second_line: u32 },
    MissingRequiredLabel { directive: Seq<char>, line_no: u32 },
    InvalidOperandType { operation: Seq<char>, expected: OperandKind, line_no: u32 },
    UndefinedSymbolReference { name: Seq<char>, line_no: u32 },
    InvalidOpcode { line_no: u32 },
    DisplacementOverflow { line_no: u32 },
    InvalidRegisterOperand { line_no: u32 },
}

impl View for AsmError {
    type V = AsmErrorView;

    open spec fn view(&self) -> AsmErrorView {
        match self {
            AsmError::DuplicateSymbol { name, first_line, second_line } => {
                AsmErrorView::DuplicateSymbol {
                    name: name@,
                    first_line: *first_line,
                    second_line: *second_line,
                }
            },
            AsmError::MissingRequiredLabel { directive, line_no } => {
                AsmErrorView::MissingRequiredLabel { directive: directive@, line_no: *line_no }
            },
            AsmError::InvalidOperandType { operation, expected, line_no } => {
                AsmErrorView::InvalidOperandType {
                    operation: operation@,
                    expected: *expected,
                    line_no: *line_no,
                }
            },
            AsmError::UndefinedSymbolReference { name, line_no } => {
                AsmErrorView::UndefinedSymbolReference { name: name@, line_no: *line_no }
            },
            AsmError::InvalidOpcode { line_no } => AsmErrorView::InvalidOpcode {
                line_no: *line_no,
            },
            AsmError::DisplacementOverflow { line_no } => AsmErrorView::DisplacementOverflow {
                line_no: *line_no,
            },
            AsmError::InvalidRegisterOperand { line_no } => AsmErrorView::InvalidRegisterOperand {
                line_no: *line_no,
            },
        }
    }
}

/// How a kind of operand is called in a message.
pub open spec fn kind_text(k: OperandKind) -> Seq<char> {
    match k {
        OperandKind::Integer => "an integer"@,
        OperandKind::IntegerOrString => "an integer or a string"@,
        OperandKind::IntegerOrSymbol => "an integer or a symbol"@,
        OperandKind::Symbol => "a symbol"@,
    }
}

/// The message of a diagnostic, as one line of text without a line feed.
pub open spec fn message_text(e: AsmErrorView) -> Seq<char> {
    match e {
        AsmErrorView::DuplicateSymbol { name, first_line, second_line } => {
            "Duplicate definition of symbol "@ + name + " at line "@ + spec_decimal(
                second_line as int,
            ) + ", first defined in line "@ + spec_decimal(first_line as int) + "."@
        },
        AsmErrorView::MissingRequiredLabel { directive, line_no } => {
            "On line "@ + spec_decimal(line_no as int) + ", the "@ + directive
                + " directive requires a label!"@
        },
        AsmErrorView::InvalidOperandType { operation, expected, line_no } => {
            "On line "@ + spec_decimal(line_no as int) + ", "@ + operation + " expects "@
                + kind_text(expected) + "!"@
        },
        AsmErrorView::UndefinedSymbolReference { name, line_no } => {
            "On line "@ + spec_decimal(line_no as int) + ", label "@ + name
                + " does not exist!"@
        },
        AsmErrorView::InvalidOpcode { line_no } => {
            "Invalid opcode at line "@ + spec_decimal(line_no as int) + "!"@
        },
        AsmErrorView::DisplacementOverflow { line_no } => {
            "On line "@ + spec_decimal(line_no as int)
                + ", the operand does not fit the displacement!"@
        },
        AsmErrorView::InvalidRegisterOperand { line_no } => {
            "On line "@ + spec_decimal(line_no as int) + ", the register operand is not valid!"@
        },
    }
}

impl OperandKind {
    /// How the kind is called in a message.
    pub fn name(&self) -> (r: &'static str)
        ensures
            r@ == kind_text(*self),
    {
        match self {
            OperandKind::Integer => "an integer",
            OperandKind::IntegerOrString => "an integer or a string",
            OperandKind::IntegerOrSymbol => "an integer or a symbol",
            OperandKind::Symbol => "a symbol",
        }
    }
}

impl AsmError {
    /// The message of the diagnostic.
    pub fn message(&self) -> (r: String)
        ensures
            r@ == message_text(self@),
    {
        let mut out = String::new();
        match self {
            AsmError::DuplicateSymbol { name, first_line, second_line } => {
                out.append("Duplicate definition of symbol ");
                out.append(name.as_str());
                out.append(" at line ");
                push_decimal(&mut out, *second_line as i64);
                out.append(", first defined in line ");
                push_decimal(&mut out, *first_line as i64);
                out.append(".");
            },
            AsmError::MissingRequiredLabel { directive, line_no } => {
                out.append("On line ");
                push_decimal(&mut out, *line_no as i64);
                out.append(", the ");
                out.append(directive);
                out.append(" directive requires a label!");
            },
            AsmError::InvalidOperandType { operation, expected, line_no } => {
                out.append("On line ");
                push_decimal(&mut out, *line_no as i64);
                out.append(", ");
                out.append(operation);
                out.append(" expects ");
                out.append(expected.name());
                out.append("!");
            },
            AsmError::UndefinedSymbolReference { name, line_no } => {
                out.append("On line ");
                push_decimal(&mut out, *line_no as i64);
                out.append(", label ");
                out.append(name.as_str());
                out.append(" does not exist!");
            },
            AsmError::InvalidOpcode { line_no } => {
                out.append("Invalid opcode at line ");
                push_decimal(&mut out, *line_no as i64);
                out.append("!");
            },
            AsmError::DisplacementOverflow { line_no } => {
                out.append("On line ");
                push_decimal(&mut out, *line_no as i64);
                out.append(", the operand does not fit the displacement!");
            },
            AsmError::InvalidRegisterOperand { line_no } => {
                out.append("On line ");
                push_decimal(&mut out, *line_no as i64);
                out.append(", the register operand is not valid!");
            },
        }
        out
    }
}

} // verus!
