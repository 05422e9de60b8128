use sicasm::encode::{encoding, gen_obj_code, NO_BASE};
use sicasm::error::{AsmError, OperandKind};
use sicasm::line::{addr_mod, arg, arg_struct, op_struct, source_op, Line, Pos, Symtab};

fn operand(val: arg, reg_code: u8, modifier: addr_mod) -> arg_struct {
    arg_struct { val, reg_code, modifier }
}

fn symbol(name: &str) -> arg_struct {
    operand(arg::Label(name.to_owned()), 255, addr_mod::Direct)
}

fn instruction(opcode: u8, name: &'static str, long: bool) -> source_op {
    source_op::Instruction(op_struct { opcode, name, long })
}

fn directive(opcode: u8, name: &'static str) -> source_op {
    source_op::Directive(op_struct { opcode, name, long: false })
}

fn table(entries: &[(&str, u32, Option<i32>)]) -> Symtab {
    let mut t = Symtab::new();
    for (i, (name, mem_loc, val)) in entries.iter().enumerate() {
        t.insert(name.to_string(), Pos { line_no: i as u32 + 1, mem_loc: *mem_loc, val: *val });
    }
    t
}

#[test]
fn tst() {
    let curr = Line::new()
        .operation(source_op::Instruction(op_struct { opcode: 0x10, name: "STX", long: true }))
        .args(vec![arg_struct {
            val: arg::Label("LENGTH".to_owned()),
            reg_code: 255,
            modifier: addr_mod::Direct,
        }])
        .line_no(30)
        .mem_loc(0x104E)
        .format(sicasm::line::format::Long);
    assert_eq!(curr.line_no, 30);
    assert_eq!(curr.mem_loc, 0x104E);
    assert_eq!(curr.args.len(), 1);
    assert_eq!(curr.args[0].reg_code, 255);
    assert!(curr.obj_code.is_empty());
}

#[test]
fn long_format_stx_length() {
    let mut curr = Line::new()
        .operation(instruction(0x10, "STX", true))
        .args(vec![symbol("LENGTH")])
        .line_no(30)
        .mem_loc(0x104E)
        .format(sicasm::line::format::Long);
    let sym_tab = table(&[("LENGTH", 0x0127, None)]);
    let mut base = NO_BASE;
    assert_eq!(gen_obj_code(&mut curr, &sym_tab, &mut base), Ok(()));
    assert_eq!(curr.obj_code, vec![0x10, 0x10, 0x01, 0x27]);
    assert_eq!(base, NO_BASE);
}

#[test]
fn encoding_adds_to_the_payload() {
    let mut curr = Line::new()
        .operation(instruction(0x10, "STX", true))
        .args(vec![symbol("LENGTH")])
        .mem_loc(0x104E)
        .format(sicasm::line::format::Long);
    let sym_tab = table(&[("LENGTH", 0x0127, None)]);
    let mut base = NO_BASE;
    curr.obj_code = vec![0xAA];
    let before = curr.clone();
    gen_obj_code(&mut curr, &sym_tab, &mut base).unwrap();
    assert_eq!(curr.obj_code, vec![0xAA, 0x10, 0x10, 0x01, 0x27]);
    gen_obj_code(&mut curr, &sym_tab, &mut base).unwrap();
    assert_eq!(curr.obj_code, vec![0xAA, 0x10, 0x10, 0x01, 0x27, 0x10, 0x10, 0x01, 0x27]);
    // Nothing but the payload changes.
    curr.obj_code = vec![0xAA];
    assert!(curr.identical(&before));
    // A statement that is encoded to nothing keeps what it carries.
    let mut remark = Line::new().comment(" only a remark").format(sicasm::line::format::Comment);
    remark.obj_code = vec![1, 2, 3];
    assert_eq!(gen_obj_code(&mut remark, &sym_tab, &mut base), Ok(()));
    assert_eq!(remark.obj_code, vec![1, 2, 3]);
    assert_eq!(base, NO_BASE);
}

#[test]
fn undefined_symbol_is_reported() {
    let curr = Line::new()
        .operation(instruction(0x00, "LDA", false))
        .args(vec![symbol("NOWHERE")])
        .line_no(7)
        .format(sicasm::line::format::Normal);
    let sym_tab = Symtab::new();
    assert_eq!(
        encoding(&curr, &sym_tab, NO_BASE),
        Err(AsmError::UndefinedSymbolReference { name: "NOWHERE".to_owned(), line_no: 7 })
    );
}

#[test]
fn word_takes_integers_only() {
    let curr = Line::new()
        .operation(directive(0x04, "WORD"))
        .args(vec![operand(arg::StrLit("AB".to_owned()), 255, addr_mod::Direct)])
        .line_no(3)
        .format(sicasm::line::format::Directive);
    assert_eq!(
        encoding(&curr, &Symtab::new(), NO_BASE),
        Err(AsmError::InvalidOperandType {
            operation: "WORD",
            expected: OperandKind::Integer,
            line_no: 3
        })
    );
}

fn integer(v: i32, modifier: addr_mod) -> arg_struct {
    operand(arg::IntLit(v), 255, modifier)
}

fn register(name: &str, code: u8) -> arg_struct {
    operand(arg::Label(name.to_owned()), code, addr_mod::Direct)
}

fn statement(op: source_op, args: Vec<arg_struct>, f: sicasm::line::format, mem_loc: u32) -> Line {
    Line::new().operation(op).args(args).line_no(5).mem_loc(mem_loc).format(f)
}

fn bytes_of(l: &Line, t: &Symtab, base: u32) -> Vec<u8> {
    encoding(l, t, base).unwrap().0
}

#[test]
fn opless_is_the_opcode_and_rsub_fills_its_slot() {
    let t = Symtab::new();
    let hio = statement(instruction(0xF4, "HIO", false), vec![], sicasm::line::format::Opless, 0);
    assert_eq!(encoding(&hio, &t, NO_BASE), Ok((vec![0xF4], NO_BASE)));
    let rsub = statement(instruction(0x4C, "RSUB", false), vec![], sicasm::line::format::Opless, 0);
    assert_eq!(encoding(&rsub, &t, 7), Ok((vec![0x4C, 0, 0], 7)));
    let odd = statement(directive(1, "START"), vec![], sicasm::line::format::Opless, 0);
    assert_eq!(encoding(&odd, &t, NO_BASE), Err(AsmError::InvalidOpcode { line_no: 5 }));
}

#[test]
fn registers_are_packed_into_one_byte() {
    let t = Symtab::new();
    let clear = statement(
        instruction(0xB4, "CLEAR", false),
        vec![register("X", 1)],
        sicasm::line::format::Register,
        0,
    );
    assert_eq!(bytes_of(&clear, &t, NO_BASE), vec![0xB4, 0x10]);
    let compr = statement(
        instruction(0x88, "COMPR", false),
        vec![register("A", 0), register("S", 4)],
        sicasm::line::format::Register,
        0,
    );
    assert_eq!(bytes_of(&compr, &t, NO_BASE), vec![0x88, 0x04]);
    let rmo = statement(
        instruction(0xAC, "RMO", false),
        vec![register("SW", 9), register("PC", 8)],
        sicasm::line::format::Register,
        0,
    );
    assert_eq!(bytes_of(&rmo, &t, NO_BASE), vec![0xAC, 0x98]);
}

#[test]
fn what_is_no_register_cannot_be_packed() {
    let t = Symtab::new();
    let fault = Err(AsmError::InvalidRegisterOperand { line_no: 5 });
    let shift = statement(
        instruction(0xA4, "SHIFTL", false),
        vec![register("A", 0), integer(4, addr_mod::Direct)],
        sicasm::line::format::Register,
        0,
    );
    assert_eq!(encoding(&shift, &t, NO_BASE), fault);
    let wide = statement(
        instruction(0xB4, "CLEAR", false),
        vec![register("Q", 16)],
        sicasm::line::format::Register,
        0,
    );
    assert_eq!(encoding(&wide, &t, NO_BASE), fault);
    let none = statement(instruction(0xB4, "CLEAR", false), vec![], sicasm::line::format::Register, 0);
    assert_eq!(encoding(&none, &t, NO_BASE), fault);
    let three = statement(
        instruction(0xB4, "CLEAR", false),
        vec![register("A", 0), register("A", 0), register("A", 0)],
        sicasm::line::format::Register,
        0,
    );
    assert_eq!(encoding(&three, &t, NO_BASE), fault);
    let odd = statement(source_op::Neh, vec![register("A", 0)], sicasm::line::format::Register, 0);
    assert_eq!(encoding(&odd, &t, NO_BASE), Err(AsmError::InvalidOpcode { line_no: 5 }));
}

#[test]
fn displacements_are_relative_to_the_statement_without_a_base() {
    let t = table(&[("RETADR", 0x30, None), ("BACK", 0x06, None), ("TEN", 0, Some(10))]);
    let stl = statement(
        instruction(0x14, "STL", false),
        vec![symbol("RETADR")],
        sicasm::line::format::Normal,
        0,
    );
    assert_eq!(bytes_of(&stl, &t, NO_BASE), vec![0x14, 0x20, 0x30]);
    // Backwards the displacement wraps within twelve bits: 6 - 0x1A = -0x14.
    let j = statement(
        instruction(0x3C, "J", false),
        vec![symbol("BACK")],
        sicasm::line::format::Normal,
        0x1A,
    );
    assert_eq!(bytes_of(&j, &t, NO_BASE), vec![0x3C, 0x2F, 0xEC]);
    // A symbol with a value is reached at its value.
    let lda = statement(
        instruction(0x00, "LDA", false),
        vec![symbol("TEN")],
        sicasm::line::format::Normal,
        4,
    );
    assert_eq!(bytes_of(&lda, &t, NO_BASE), vec![0x00, 0x20, 0x06]);
    // An integer in place of a symbol is an address.
    let lit = statement(
        instruction(0x00, "LDA", false),
        vec![integer(0x123, addr_mod::Direct)],
        sicasm::line::format::Normal,
        0x23,
    );
    assert_eq!(bytes_of(&lit, &t, NO_BASE), vec![0x00, 0x21, 0x00]);
}

#[test]
fn displacements_are_relative_to_the_base_where_one_is_set() {
    let t = table(&[("BUFFER", 0x36, None), ("LOW", 0x10, None)]);
    let stch = statement(
        instruction(0x54, "STCH", false),
        vec![symbol("BUFFER"), register("X", 1)],
        sicasm::line::format::Normal,
        0x104E,
    );
    assert_eq!(bytes_of(&stch, &t, 0x33), vec![0x54, 0xC0, 0x03]);
    assert_eq!(bytes_of(&stch, &t, 0), vec![0x54, 0xC0, 0x36]);
    // Below the base the displacement wraps within twelve bits.
    let lda = statement(
        instruction(0x00, "LDA", false),
        vec![symbol("LOW")],
        sicasm::line::format::Normal,
        0,
    );
    assert_eq!(bytes_of(&lda, &t, 0x33), vec![0x00, 0x4F, 0xDD]);
}

#[test]
fn modes_set_their_bits_in_the_opcode() {
    let t = table(&[("RETADR", 0x30, None)]);
    let indirect = statement(
        instruction(0x3C, "J", false),
        vec![operand(arg::Label("RETADR".to_owned()), 255, addr_mod::Indirect)],
        sicasm::line::format::Normal,
        0x2A,
    );
    assert_eq!(bytes_of(&indirect, &t, NO_BASE), vec![0x3E, 0x20, 0x06]);
    let immediate = statement(
        instruction(0x00, "LDA", false),
        vec![integer(3, addr_mod::Immediate)],
        sicasm::line::format::Normal,
        0x20,
    );
    assert_eq!(bytes_of(&immediate, &t, NO_BASE), vec![0x01, 0x00, 0x03]);
    assert_eq!(addr_mod::Direct.bits(), 0x00);
    assert_eq!(addr_mod::Indirect.bits(), 0x02);
    assert_eq!(addr_mod::Immediate.bits(), 0x01);
    assert_eq!(addr_mod::Literal.bits(), 0x12);
}

#[test]
fn immediate_operands_are_values_or_addresses() {
    let t = table(&[("LENGTH", 0x33, None), ("MAX", 0, Some(4096 + 5)), ("NEG", 0, Some(-1))]);
    let at = |a: arg_struct, base: u32| {
        let l = statement(instruction(0x68, "LDB", false), vec![a], sicasm::line::format::Normal, 3);
        encoding(&l, &t, base)
    };
    let imm = |name: &str| operand(arg::Label(name.to_owned()), 255, addr_mod::Immediate);
    // A symbol that names an address is reached by a displacement.
    assert_eq!(at(imm("LENGTH"), NO_BASE), Ok((vec![0x69, 0x20, 0x30], NO_BASE)));
    assert_eq!(at(imm("LENGTH"), 0x30), Ok((vec![0x69, 0x40, 0x03], 0x30)));
    // A symbol with a value is its low twelve bits, with no flag.
    assert_eq!(at(imm("MAX"), NO_BASE), Ok((vec![0x69, 0x00, 0x05], NO_BASE)));
    assert_eq!(at(imm("NEG"), 0x30), Ok((vec![0x69, 0x0F, 0xFF], 0x30)));
    // An integer has to fit.
    assert_eq!(at(integer(0, addr_mod::Immediate), NO_BASE), Ok((vec![0x69, 0x00, 0x00], NO_BASE)));
    assert_eq!(at(integer(0xFFF, addr_mod::Immediate), 9), Ok((vec![0x69, 0x0F, 0xFF], 9)));
    let overflow = Err(AsmError::DisplacementOverflow { line_no: 5 });
    assert_eq!(at(integer(0x1000, addr_mod::Immediate), NO_BASE), overflow);
    assert_eq!(at(integer(-1, addr_mod::Immediate), NO_BASE), overflow);
    assert_eq!(
        at(imm("NOWHERE"), NO_BASE),
        Err(AsmError::UndefinedSymbolReference { name: "NOWHERE".to_owned(), line_no: 5 })
    );
}

#[test]
fn the_second_operand_has_to_be_the_index_register() {
    let t = table(&[("BUFFER", 0x36, None)]);
    let with = |second: arg_struct, f: sicasm::line::format| {
        let l = statement(
            instruction(0x50, "LDCH", f == sicasm::line::format::Long),
            vec![symbol("BUFFER"), second],
            f,
            0x10,
        );
        encoding(&l, &t, NO_BASE)
    };
    assert_eq!(
        with(register("X", 1), sicasm::line::format::Normal),
        Ok((vec![0x50, 0xA0, 0x26], NO_BASE))
    );
    assert_eq!(
        with(register("X", 1), sicasm::line::format::Long),
        Ok((vec![0x50, 0x90, 0x00, 0x36], NO_BASE))
    );
    let fault = Err(AsmError::InvalidRegisterOperand { line_no: 5 });
    assert_eq!(with(register("A", 0), sicasm::line::format::Normal), fault);
    assert_eq!(with(register("BUFFER", 255), sicasm::line::format::Normal), fault);
    assert_eq!(with(register("S", 4), sicasm::line::format::Long), fault);
}

#[test]
fn the_long_layout_holds_an_absolute_address() {
    let t = table(&[("RDREC", 0x1036, None), ("FAR", 0x12_3456, None), ("TEN", 0x40, Some(10))]);
    let at = |a: arg_struct| {
        let l = statement(instruction(0x48, "JSUB", true), vec![a], sicasm::line::format::Long, 6);
        encoding(&l, &t, 0x33)
    };
    assert_eq!(at(symbol("RDREC")), Ok((vec![0x48, 0x10, 0x10, 0x36], 0x33)));
    // Only twenty bits of an address fit.
    assert_eq!(at(symbol("FAR")), Ok((vec![0x48, 0x12, 0x34, 0x56], 0x33)));
    // A symbol with a value is still reached at its address.
    assert_eq!(at(symbol("TEN")), Ok((vec![0x48, 0x10, 0x00, 0x40], 0x33)));
    assert_eq!(at(integer(4096, addr_mod::Immediate)), Ok((vec![0x49, 0x10, 0x10, 0x00], 0x33)));
    assert_eq!(at(integer(-1, addr_mod::Direct)), Ok((vec![0x48, 0x1F, 0xFF, 0xFF], 0x33)));
    assert_eq!(
        at(operand(arg::Label("RDREC".to_owned()), 255, addr_mod::Indirect)),
        Ok((vec![0x4A, 0x10, 0x10, 0x36], 0x33))
    );
    assert_eq!(
        at(symbol("NOWHERE")),
        Err(AsmError::UndefinedSymbolReference { name: "NOWHERE".to_owned(), line_no: 5 })
    );
}

#[test]
fn operands_of_the_wrong_shape_are_faults() {
    let t = table(&[("A", 0, None)]);
    let fault = |name: &'static str| {
        Err(AsmError::InvalidOperandType {
            operation: name,
            expected: OperandKind::IntegerOrSymbol,
            line_no: 5,
        })
    };
    for f in [sicasm::line::format::Normal, sicasm::line::format::Long] {
        let op = instruction(0x00, "LDA", false);
        let none = statement(op, vec![], f, 0);
        assert_eq!(encoding(&none, &t, NO_BASE), fault("LDA"));
        let three = statement(op, vec![symbol("A"), register("X", 1), register("X", 1)], f, 0);
        assert_eq!(encoding(&three, &t, NO_BASE), fault("LDA"));
        let literal =
            statement(op, vec![operand(arg::Label("A".to_owned()), 255, addr_mod::Literal)], f, 0);
        assert_eq!(encoding(&literal, &t, NO_BASE), fault("LDA"));
        let string =
            statement(op, vec![operand(arg::StrLit("A".to_owned()), 255, addr_mod::Direct)], f, 0);
        assert_eq!(encoding(&string, &t, NO_BASE), fault("LDA"));
        let string = statement(
            op,
            vec![operand(arg::StrLit("A".to_owned()), 255, addr_mod::Immediate)],
            f,
            0,
        );
        assert_eq!(encoding(&string, &t, NO_BASE), fault("LDA"));
        let odd = statement(directive(3, "BYTE"), vec![symbol("A")], f, 0);
        assert_eq!(encoding(&odd, &t, NO_BASE), Err(AsmError::InvalidOpcode { line_no: 5 }));
        // The first operand is looked at before the second.
        let both = statement(op, vec![symbol("NOWHERE"), register("A", 0)], f, 0);
        assert_eq!(
            encoding(&both, &t, NO_BASE),
            Err(AsmError::UndefinedSymbolReference { name: "NOWHERE".to_owned(), line_no: 5 })
        );
    }
}

#[test]
fn byte_holds_a_string_or_one_byte_for_each_integer() {
    let t = Symtab::new();
    let of = |args: Vec<arg_struct>| {
        encoding(
            &statement(directive(3, "BYTE"), args, sicasm::line::format::Directive, 0),
            &t,
            NO_BASE,
        )
    };
    let string = |s: &str| operand(arg::StrLit(s.to_owned()), 255, addr_mod::Direct);
    assert_eq!(of(vec![string("EOF")]), Ok((vec![0x45, 0x4F, 0x46], NO_BASE)));
    assert_eq!(of(vec![string("")]), Ok((vec![], NO_BASE)));
    assert_eq!(of(vec![string("\u{e9}")]), Ok((vec![0xC3, 0xA9], NO_BASE)));
    assert_eq!(
        of(vec![
            integer(0, addr_mod::Direct),
            integer(255, addr_mod::Direct),
            integer(256, addr_mod::Direct),
            integer(-1, addr_mod::Direct),
            integer(0x1234, addr_mod::Direct)
        ]),
        Ok((vec![0, 255, 0, 255, 0x34], NO_BASE))
    );
    assert_eq!(
        of(vec![]),
        Err(AsmError::InvalidOperandType {
            operation: "BYTE",
            expected: OperandKind::IntegerOrString,
            line_no: 5
        })
    );
    let fault = Err(AsmError::InvalidOperandType {
        operation: "BYTE",
        expected: OperandKind::Integer,
        line_no: 5,
    });
    assert_eq!(of(vec![symbol("A")]), fault);
    assert_eq!(of(vec![integer(1, addr_mod::Direct), string("A")]), fault);
}

#[test]
fn word_holds_three_bytes_for_each_integer() {
    let t = Symtab::new();
    let of = |args: Vec<arg_struct>| {
        encoding(
            &statement(directive(4, "WORD"), args, sicasm::line::format::Directive, 0),
            &t,
            NO_BASE,
        )
    };
    assert_eq!(of(vec![integer(0x123456, addr_mod::Direct)]), Ok((vec![0x12, 0x34, 0x56], NO_BASE)));
    assert_eq!(
        of(vec![integer(1, addr_mod::Direct), integer(-1, addr_mod::Direct), integer(0x7123_4567, addr_mod::Direct)]),
        Ok((vec![0, 0, 1, 0xFF, 0xFF, 0xFF, 0x23, 0x45, 0x67], NO_BASE))
    );
    let fault = Err(AsmError::InvalidOperandType {
        operation: "WORD",
        expected: OperandKind::Integer,
        line_no: 5,
    });
    assert_eq!(of(vec![]), fault);
    assert_eq!(of(vec![integer(1, addr_mod::Direct), symbol("A")]), fault);
}

#[test]
fn base_and_nobase_set_the_base_register() {
    let t = table(&[("LENGTH", 0x33, Some(7))]);
    let base = statement(directive(7, "BASE"), vec![symbol("LENGTH")], sicasm::line::format::Directive, 0);
    assert_eq!(encoding(&base, &t, NO_BASE), Ok((vec![], 0x33)));
    assert_eq!(encoding(&base, &t, 5), Ok((vec![], 0x33)));
    let nobase = statement(directive(8, "NOBASE"), vec![], sicasm::line::format::Directive, 0);
    assert_eq!(encoding(&nobase, &t, 0x33), Ok((vec![], NO_BASE)));
    let lost = statement(directive(7, "BASE"), vec![symbol("LOST")], sicasm::line::format::Directive, 0);
    assert_eq!(
        encoding(&lost, &t, 1),
        Err(AsmError::UndefinedSymbolReference { name: "LOST".to_owned(), line_no: 5 })
    );
    let fault = Err(AsmError::InvalidOperandType {
        operation: "BASE",
        expected: OperandKind::Symbol,
        line_no: 5,
    });
    let bare = statement(directive(7, "BASE"), vec![], sicasm::line::format::Directive, 0);
    assert_eq!(encoding(&bare, &t, 1), fault);
    let number =
        statement(directive(7, "BASE"), vec![integer(3, addr_mod::Direct)], sicasm::line::format::Directive, 0);
    assert_eq!(encoding(&number, &t, 1), fault);
}

#[test]
fn statements_without_content_have_no_bytes() {
    let t = Symtab::new();
    for (code, name) in [(1u8, "START"), (2, "END"), (5, "RESB"), (6, "RESW"), (9, "EQU"), (0, "USE")] {
        let l = statement(
            directive(code, name),
            vec![integer(3, addr_mod::Direct)],
            sicasm::line::format::Directive,
            0,
        );
        assert_eq!(encoding(&l, &t, 4), Ok((vec![], 4)));
    }
    let l = statement(instruction(0, "LDA", false), vec![], sicasm::line::format::Directive, 0);
    assert_eq!(encoding(&l, &t, 4), Ok((vec![], 4)));
    for f in [sicasm::line::format::Comment, sicasm::line::format::Unassigned] {
        let l = statement(instruction(0, "LDA", false), vec![symbol("LOST")], f, 0);
        assert_eq!(encoding(&l, &t, 4), Ok((vec![], 4)));
    }
}

#[test]
fn a_fault_leaves_the_statement_and_the_base() {
    let mut curr = statement(
        instruction(0x00, "LDA", false),
        vec![symbol("NOWHERE")],
        sicasm::line::format::Normal,
        0,
    );
    curr.obj_code = vec![1, 2, 3];
    let before = curr.clone();
    let mut base = 0x33;
    assert!(gen_obj_code(&mut curr, &Symtab::new(), &mut base).is_err());
    assert!(curr.identical(&before));
    assert_eq!(base, 0x33);
}

#[test]
fn gen_obj_code_sets_the_base() {
    let t = table(&[("LENGTH", 0x33, None)]);
    let mut base_line =
        statement(directive(7, "BASE"), vec![symbol("LENGTH")], sicasm::line::format::Directive, 0);
    base_line.obj_code = vec![9];
    let mut base = NO_BASE;
    assert_eq!(gen_obj_code(&mut base_line, &t, &mut base), Ok(()));
    assert_eq!(base, 0x33);
    assert_eq!(base_line.obj_code, vec![9]);
}
