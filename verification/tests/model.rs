use sicasm::line::{
    addr_mod, arg, arg_struct, clone_operands, expr_struct, mod_rec, op_struct, source_op, Line,
};
use sicasm::listing::{display_vec, display_vec_nums, is_listed, push_listing, push_listing_line};
use sicasm::text::{
    push_chars, push_decimal, push_hex, push_hex_bytes, push_padded, push_repeated, right_aligned,
    str_eq,
};

fn name(n: &str) -> arg {
    arg::Label(n.to_owned())
}

fn direct(val: arg) -> arg_struct {
    arg_struct { val, reg_code: 255, modifier: addr_mod::Direct }
}

fn expression(lhs: arg, op: u8, rhs: arg) -> arg {
    arg::Expr(Box::new(expr_struct { lhs, op, rhs }))
}

fn lda() -> source_op {
    source_op::Instruction(op_struct::new(0x00, "LDA"))
}

#[test]
fn a_new_statement_is_empty() {
    let l = Line::new();
    assert_eq!(l.label, None);
    assert!(matches!(l.operation, source_op::Neh));
    assert!(l.args.is_empty());
    assert_eq!(l.comment, "");
    assert_eq!(l.line_no, 0);
    assert_eq!(l.mem_loc, 0);
    assert_eq!(l.format, sicasm::line::format::Unassigned);
    assert!(l.obj_code.is_empty());
}

#[test]
fn builders_set_one_field() {
    let l = Line::new()
        .label(Some("LOOP".to_owned()))
        .operation(lda())
        .args(vec![direct(name("BUFFER"))])
        .line_no(12)
        .mem_loc(0x30)
        .comment(" fetch")
        .format(sicasm::line::format::Normal);
    assert_eq!(l.label, Some("LOOP".to_owned()));
    assert!(l.operation.identical(&lda()));
    assert_eq!(l.args.len(), 1);
    assert_eq!(l.line_no, 12);
    assert_eq!(l.mem_loc, 0x30);
    assert_eq!(l.comment, " fetch");
    assert_eq!(l.format, sicasm::line::format::Normal);
    let l = l.label(None).comment("");
    assert_eq!(l.label, None);
    assert_eq!(l.comment, "");
    assert_eq!(l.line_no, 12);
    let m = mod_rec::new().mem_loc(9).length(5).positive(false).symbol("COPY".to_owned());
    assert_eq!((m.mem_loc, m.length, m.pos, m.symbol.as_str()), (9, 5, false, "COPY"));
}

#[test]
fn table_entries() {
    let x = op_struct::new(0x18, "ADD");
    assert_eq!((x.opcode, x.name, x.long), (0x18, "ADD", false));
    let y = x.long(true);
    assert_eq!((y.opcode, y.name, y.long), (0x18, "ADD", true));
    assert!(!y.long(false).long);
    match source_op::Instruction(x).instr_long_mode(true) {
        source_op::Instruction(z) => assert!(z.long && z.opcode == 0x18 && z.name == "ADD"),
        _ => panic!(),
    }
    assert!(matches!(
        source_op::Directive(x).instr_long_mode(true),
        source_op::Directive(z) if !z.long
    ));
    assert!(matches!(source_op::Neh.instr_long_mode(true), source_op::Neh));
    assert!(matches!(source_op::Error.instr_long_mode(true), source_op::Error));
}

#[test]
fn unwrapping_gives_the_content_or_a_placeholder() {
    assert_eq!(arg::IntLit(-5).unwrap_as_int(), Some(-5));
    assert_eq!(name("A").unwrap_as_int(), None);
    assert_eq!(arg::StrLit("7".to_owned()).unwrap_as_int(), None);
    assert_eq!(arg::StrLit("EOF".to_owned()).unwrap_as_string(), "EOF");
    assert_eq!(name("EOF").unwrap_as_string(), "");
    assert_eq!(arg::IntLit(1).unwrap_as_string(), "");
    let byte = source_op::Directive(op_struct::new(3, "BYTE"));
    assert_eq!(byte.unwrap_as_directive(), "BYTE");
    assert_eq!(byte.unwrap_as_instruction(), "not instruction");
    assert_eq!(lda().unwrap_as_instruction(), "LDA");
    assert_eq!(lda().unwrap_as_directive(), "not directive");
    assert_eq!(source_op::Neh.unwrap_as_directive(), "not directive");
    assert_eq!(source_op::Error.unwrap_as_instruction(), "not instruction");
}

#[test]
fn equality_looks_at_the_kind() {
    assert!(name("A") == name("B"));
    assert!(arg::IntLit(1) == arg::IntLit(2));
    assert!(arg::StrLit("x".to_owned()) == arg::StrLit(String::new()));
    assert!(name("A") != arg::StrLit("A".to_owned()));
    assert!(arg::IntLit(1) != name("1"));
    assert!(expression(name("A"), 1, name("B")) == expression(arg::IntLit(1), 2, arg::IntLit(2)));
    assert!(expression(name("A"), 1, name("B")) != name("A"));
    assert!(lda() == source_op::Instruction(op_struct::new(0x18, "ADD")));
    assert!(lda() != source_op::Directive(op_struct::new(0x00, "LDA")));
    assert!(source_op::Neh == source_op::Neh);
    assert!(source_op::Neh != source_op::Error);
    assert!(op_struct::new(1, "START") == op_struct::new(1, "START"));
    assert!(op_struct::new(1, "START") != op_struct::new(2, "START"));
    assert!(op_struct::new(1, "START") != op_struct::new(1, "END"));
    assert!(op_struct::new(1, "START") != op_struct::new(1, "START").long(true));
    let a = arg_struct { val: name("A"), reg_code: 0, modifier: addr_mod::Direct };
    let b = arg_struct { val: name("B"), reg_code: 3, modifier: addr_mod::Direct };
    let c = arg_struct { val: name("A"), reg_code: 0, modifier: addr_mod::Immediate };
    assert!(a == b);
    assert!(a != c);
    let e = expr_struct { lhs: name("A"), op: 1, rhs: arg::IntLit(1) };
    let f = expr_struct { lhs: name("B"), op: 1, rhs: arg::IntLit(2) };
    let g = expr_struct { lhs: name("B"), op: 2, rhs: arg::IntLit(2) };
    let h = expr_struct { lhs: arg::IntLit(0), op: 1, rhs: arg::IntLit(2) };
    assert!(e == f);
    assert!(f != g);
    assert!(f != h);
    assert!(sicasm::line::format::Long == sicasm::line::format::Long);
    assert!(sicasm::line::format::Long != sicasm::line::format::Normal);
    assert!(addr_mod::Direct != addr_mod::Literal);
}

#[test]
fn equal_statements_may_differ_in_the_mnemonic_and_the_bytes() {
    let make = || {
        Line::new()
            .label(Some("L".to_owned()))
            .operation(lda())
            .args(vec![direct(name("A"))])
            .comment("c")
            .line_no(1)
            .mem_loc(2)
            .format(sicasm::line::format::Normal)
    };
    let a = make();
    let mut b = make()
        .operation(source_op::Instruction(op_struct::new(0x18, "ADD").long(true)))
        .args(vec![direct(name("OTHER"))]);
    b.obj_code = vec![1, 2, 3];
    b.args[0].reg_code = 4;
    assert!(a == b);
    assert!(!a.identical(&b));
    assert!(a != make().operation(source_op::Error));
    assert!(a != make().operation(source_op::Directive(op_struct::new(0x00, "LDA"))));
    assert!(a != make().label(None));
    assert!(a != make().label(Some("M".to_owned())));
    assert!(a != make().comment("d"));
    assert!(a != make().line_no(2));
    assert!(a != make().mem_loc(3));
    assert!(a != make().format(sicasm::line::format::Long));
    assert!(a != make().args(vec![]));
    assert!(a != make().args(vec![direct(arg::IntLit(1))]));
    assert!(a != make().args(vec![direct(name("A")), direct(name("A"))]));
}

#[test]
fn identical_compares_everything() {
    let make = || {
        let mut l = Line::new()
            .label(Some("L".to_owned()))
            .operation(lda())
            .args(vec![direct(name("A")), direct(expression(name("P"), 1, arg::IntLit(2)))])
            .comment("c");
        l.obj_code = vec![1, 2];
        l
    };
    let a = make();
    assert!(a.identical(&make()));
    assert!(a.identical(&a.clone()));
    assert!(!a.identical(&make().operation(source_op::Instruction(op_struct::new(0, "LDA").long(true)))));
    assert!(!a.identical(&make().operation(source_op::Directive(op_struct::new(0, "LDA")))));
    let mut b = make();
    b.obj_code = vec![1, 3];
    assert!(!a.identical(&b));
    let mut b = make();
    b.obj_code.push(0);
    assert!(!a.identical(&b));
    let mut b = make();
    b.args[0].reg_code = 1;
    assert!(!a.identical(&b));
    let mut b = make();
    b.args[0].val = name("B");
    assert!(!a.identical(&b));
    let mut b = make();
    b.args[1].val = expression(name("P"), 1, arg::IntLit(3));
    assert!(!a.identical(&b));
    let mut b = make();
    b.args[1].val = expression(name("P"), 2, arg::IntLit(2));
    assert!(!a.identical(&b));
    assert!(name("A").identical(&name("A")));
    assert!(!name("A").identical(&arg::StrLit("A".to_owned())));
    assert!(arg::IntLit(3).identical(&arg::IntLit(3)));
    assert!(!arg::IntLit(3).identical(&arg::IntLit(4)));
}

#[test]
fn copies_are_identical() {
    let e = expression(name("A"), 7, expression(arg::IntLit(1), 2, arg::StrLit("s".to_owned())));
    assert!(e.clone().identical(&e));
    assert!(e.duplicate().identical(&e));
    let list = vec![direct(e), arg_struct { val: name("X"), reg_code: 1, modifier: addr_mod::Indirect }];
    let copy = clone_operands(&list);
    assert_eq!(copy.len(), 2);
    assert!(copy[0].identical(&list[0]));
    assert!(copy[1].identical(&list[1]));
    assert!(list[1].clone().identical(&list[1]));
    let inner = expr_struct { lhs: name("A"), op: 1, rhs: arg::IntLit(1) };
    let twin = inner.clone();
    assert!(twin.lhs.identical(&inner.lhs) && twin.op == 1 && twin.rhs.identical(&inner.rhs));
}

#[test]
fn str_eq_compares_the_characters() {
    assert!(str_eq("", ""));
    assert!(str_eq("RSUB", "RSUB"));
    assert!(!str_eq("RSUB", "RSUC"));
    assert!(!str_eq("RSUB", "RSU"));
    assert!(!str_eq("", "A"));
    assert!(str_eq("caf\u{e9}", "caf\u{e9}"));
    assert!(!str_eq("caf\u{e9}", "cafe"));
}

fn hex_of(v: u64, width: usize) -> String {
    let mut out = String::new();
    push_hex(&mut out, v, width);
    out
}

fn decimal_of(v: i64) -> String {
    let mut out = String::new();
    push_decimal(&mut out, v);
    out
}

#[test]
fn digits_of_numbers() {
    assert_eq!(hex_of(0, 0), "0");
    assert_eq!(hex_of(9, 1), "9");
    assert_eq!(hex_of(10, 1), "A");
    assert_eq!(hex_of(15, 2), "0F");
    assert_eq!(hex_of(4096, 0), "1000");
    assert_eq!(hex_of(0xABCDEF, 6), "ABCDEF");
    assert_eq!(hex_of(u64::MAX, 6), "FFFFFFFFFFFFFFFF");
    assert_eq!(decimal_of(0), "0");
    assert_eq!(decimal_of(4096), "4096");
    assert_eq!(decimal_of(i64::MAX), "9223372036854775807");
    assert_eq!(decimal_of(i64::MIN), "-9223372036854775808");
}

#[test]
fn numbers_and_texts_are_appended() {
    let mut out = String::from("<");
    push_hex(&mut out, 0x3E8, 6);
    push_hex(&mut out, 0, 2);
    push_hex(&mut out, 0x1234567, 6);
    push_hex(&mut out, 0xA, 0);
    assert_eq!(out, "<0003E800" .to_owned() + "1234567A");
    let mut out = String::new();
    push_decimal(&mut out, 0);
    push_decimal(&mut out, -1);
    push_decimal(&mut out, 1234567890);
    push_decimal(&mut out, i32::MIN as i64);
    assert_eq!(out, "0-11234567890-2147483648");
    let mut out = String::new();
    push_hex_bytes(&mut out, &vec![0x00, 0x0F, 0xF0, 0xFF]);
    push_hex_bytes(&mut out, &vec![]);
    assert_eq!(out, "000FF0FF");
    let mut out = String::from("a");
    push_repeated(&mut out, '-', 3);
    push_repeated(&mut out, '+', 0);
    push_chars(&mut out, &vec!['\u{e9}', 'z']);
    assert_eq!(out, "a---\u{e9}z");
    let mut out = String::new();
    push_padded(&mut out, "COPY", 6);
    push_padded(&mut out, "LONGNAME", 6);
    push_padded(&mut out, "\u{e9}", 3);
    push_padded(&mut out, "", 2);
    push_padded(&mut out, "x", 0);
    assert_eq!(out, "COPY  LONGNAME\u{e9}    x");
    assert_eq!(right_aligned("COPY", 6), "  COPY");
    assert_eq!(right_aligned("LONGNAME", 6), "LONGNAME");
    assert_eq!(right_aligned("\u{e9}", 3), "  \u{e9}");
    assert_eq!(right_aligned("", 0), "");
}

#[test]
fn the_parts_of_a_listing_line() {
    assert_eq!(name("RETADR").to_text(), "RETADR  ");
    assert_eq!(name("A_LONG_NAME").to_text(), "A_LONG_NAME");
    assert_eq!(arg::StrLit("EOF".to_owned()).to_text(), "\"EOF\"   ");
    assert_eq!(arg::StrLit(String::new()).to_text(), "\"\"      ");
    assert_eq!(arg::IntLit(4096).to_text(), "4096    ");
    assert_eq!(arg::IntLit(-7).to_text(), "-7      ");
    assert_eq!(arg::IntLit(i32::MIN).to_text(), "-2147483648");
    assert_eq!(expression(name("A"), 1, name("B")).to_text(), "Comment");
    assert_eq!(direct(name("X")).to_text(), "X       ,");
    assert_eq!(lda().to_text(), "LDA         ");
    assert_eq!(source_op::Directive(op_struct::new(8, "NOBASE")).to_text(), "NOBASE      ");
    assert_eq!(source_op::Error.to_text(), "Error_op");
    assert_eq!(source_op::Neh.to_text(), "Comment");
    assert_eq!(display_vec(&vec![]), " ".repeat(12));
    assert_eq!(display_vec(&vec![direct(name("A"))]), "A       ,      ");
    assert_eq!(
        display_vec(&vec![direct(name("BUFFER")), direct(name("X"))]),
        "BUFFER  ,X       ,      "
    );
    assert_eq!(
        display_vec(&vec![direct(arg::IntLit(1)), direct(arg::IntLit(2)), direct(arg::IntLit(3))]),
        "1       ,2       ,3       ,      "
    );
    assert_eq!(display_vec_nums(&vec![]), " ".repeat(12));
    assert_eq!(display_vec_nums(&vec![0x4C]), "4C      ");
    assert_eq!(display_vec_nums(&vec![0xB4, 0x10]), "B410");
    assert_eq!(display_vec_nums(&vec![0x01, 0x0A, 0xFF]), "010AFF");
}

#[test]
fn the_listing_has_a_line_for_what_takes_part_in_the_program() {
    for n in ["START", "END", "RESB", "RESW", "BYTE", "WORD"] {
        assert!(is_listed(&source_op::Directive(op_struct::new(0, n))));
    }
    for n in ["BASE", "NOBASE", "EQU", "start", ""] {
        assert!(!is_listed(&source_op::Directive(op_struct::new(0, n))));
    }
    assert!(is_listed(&lda()));
    assert!(!is_listed(&source_op::Neh));
    assert!(!is_listed(&source_op::Error));
    let mut a = Line::new()
        .label(Some("CLOOP".to_owned()))
        .operation(source_op::Instruction(op_struct::new(0x48, "JSUB").long(true)))
        .args(vec![direct(name("RDREC"))])
        .line_no(125)
        .mem_loc(0x1A2B);
    a.obj_code = vec![0x4B, 0x10, 0x10, 0x36];
    let b = Line::new().operation(source_op::Directive(op_struct::new(7, "BASE"))).line_no(126);
    let c = Line::new().comment(" skipped").line_no(127);
    let mut d = Line::new().operation(lda()).line_no(12345).mem_loc(0xFFFF_FFFF);
    d.obj_code = vec![7];
    let mut one = String::new();
    push_listing_line(&mut one, &a, 0);
    assert_eq!(one, "125 1A2B    CLOOP   JSUB        RDREC   ,      4B101036\n");
    let mut padded = String::new();
    push_listing_line(&mut padded, &d, 8);
    assert_eq!(padded, "12345FFFFFFFF        LDA                     07      \n");
    let lines = vec![a, b, c, d];
    let mut out = String::from("#\n");
    push_listing(&mut out, &lines, 0);
    assert_eq!(
        out,
        "#\n125 1A2B    CLOOP   JSUB        RDREC   ,      4B101036\n\
         12345FFFFFFFF        LDA                     07      \n"
    );
}
