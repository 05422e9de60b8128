use sicasm::error::{AsmError, OperandKind};
use sicasm::line::{arg, leading_integer, mod_rec, source_op, Line, Modtab, Symtab};
use sicasm::pass1::assemble;
use sicasm::records::{
    emit, emit_records, gen_header_record, gen_records, push_item_bytes, push_item_text, render_bytes, render_text, vec_gen_header_record, vec_gen_records, ObjectItem,
    VecWrapper, RECORD_LIMIT,
};

fn program(lines: &[&str]) -> (Vec<Line>, Symtab) {
    let source: Vec<String> = lines.iter().map(|l| l.to_string()).collect();
    let (statements, sym_tab, errors) = assemble(&source);
    assert_eq!(errors, vec![]);
    (statements, sym_tab)
}

fn items_of(lines: &[&str]) -> Result<Vec<ObjectItem>, AsmError> {
    let (mut statements, sym_tab) = program(lines);
    emit_records(&mut statements, &sym_tab)
}

fn text_start(address: u32) -> ObjectItem {
    ObjectItem::TextStart { address }
}

fn payload(bytes: &[u8]) -> ObjectItem {
    ObjectItem::Payload { bytes: bytes.to_vec() }
}

const COPY: [&str; 11] = [
    "COPY    START   1000",
    "FIRST   STL     RETADR        . save the return address",
    "        LDB     #LENGTH",
    "        BASE    LENGTH",
    "        +JSUB   RDREC",
    "        RSUB",
    "EOF     BYTE    C'EOF'",
    "RETADR  RESW    1",
    "LENGTH  RESW    1",
    "RDREC   CLEAR   X",
    "        END     FIRST",
];

#[test]
fn a_program_folds_into_its_records() {
    assert_eq!(
        items_of(&COPY),
        Ok(vec![
            ObjectItem::Header { name: "COPY".to_owned(), start: 1000, length: 24 },
            text_start(1000),
            payload(&[0x14, 0x20, 0x10]),
            payload(&[0x69, 0x20, 0x10]),
            payload(&[0x48, 0x10, 0x03, 0xFE]),
            payload(&[0x4C, 0x00, 0x00]),
            payload(&[0x45, 0x4F, 0x46]),
            text_start(1022),
            payload(&[0xB4, 0x10]),
            ObjectItem::End { start: 1000 },
            ObjectItem::Modification { address: 1007, half_bytes: 5 },
        ])
    );
}

#[test]
fn a_program_as_text() {
    let (mut statements, sym_tab) = program(&COPY);
    let mut parsed = String::from("listing\n");
    let text = gen_records(&mut statements, &sym_tab, &mut parsed).unwrap();
    assert_eq!(
        text,
        "HCOPY  0003E8000018\
         \nT0003E8142010692010481003FE" .to_owned() + "4C0000454F46\
         \nT0003FEB410\
         \nE0003E8\n\
         M0003EF05\n"
    );
    assert_eq!(statements[1].obj_code, vec![0x14, 0x20, 0x10]);
    assert_eq!(statements[9].obj_code, vec![0xB4, 0x10]);
    assert!(statements[7].obj_code.is_empty());
    assert_eq!(
        parsed,
        "listing\n\
         1   3E8     COPY    START       1000    ,      \x20           \n\
         2   3E8     FIRST   STL         RETADR  ,      142010\n\
         3   3EB             LDB         LENGTH  ,      692010\n\
         5   3EE             JSUB        RDREC   ,      481003FE\n\
         6   3F2             RSUB                    4C0000\n\
         7   3F5     EOF     BYTE        \"EOF\"   ,      454F46\n\
         8   3F8     RETADR  RESW        1       ,      \x20           \n\
         9   3FB     LENGTH  RESW        1       ,      \x20           \n\
         10  3FE     RDREC   CLEAR       X       ,      B410\n\
         11  400             END         FIRST   ,      \x20           \n"
    );
}

#[test]
fn a_program_as_bytes() {
    let (mut statements, sym_tab) = program(&COPY);
    let mut parsed = String::new();
    let image = vec_gen_records(&mut statements, &sym_tab, &mut parsed).unwrap();
    let mut expected: Vec<u8> = Vec::new();
    expected.extend_from_slice(b"H  COPY");
    expected.extend_from_slice(&[0x00, 0x03, 0xE8, 0x00, 0x00, 0x18]);
    expected.extend_from_slice(&[b'T', 0, 0x03, 0xE8]);
    expected.extend_from_slice(&[0x14, 0x20, 0x10, 0x69, 0x20, 0x10, 0x48, 0x10, 0x03, 0xFE]);
    expected.extend_from_slice(&[0x4C, 0x00, 0x00, 0x45, 0x4F, 0x46]);
    expected.extend_from_slice(&[b'T', 0, 0x03, 0xFE, 0xB4, 0x10]);
    expected.extend_from_slice(&[b'E', 0x00, 0x03, 0xE8, 0x00]);
    expected.extend_from_slice(&[b'M', 0, 0x03, 0xEF, 5]);
    assert_eq!(image, expected);
    // This listing fills its last two columns up to eight characters.
    assert_eq!(
        parsed.lines().nth(1),
        Some("2   3E8     FIRST   STL         RETADR  ,      142010  ")
    );
    assert_eq!(
        parsed.lines().nth(4),
        Some("6   3F2             RSUB                    4C0000  ")
    );
    assert_eq!(
        parsed.lines().nth(3),
        Some("5   3EE             JSUB        RDREC   ,      481003FE")
    );
}

#[test]
fn both_forms_render_the_same_items() {
    let items = items_of(&COPY).unwrap();
    let (mut a, sym_tab) = program(&COPY);
    let (mut b, _) = program(&COPY);
    let mut listing = String::new();
    assert_eq!(gen_records(&mut a, &sym_tab, &mut listing), Ok(render_text(&items)));
    assert_eq!(vec_gen_records(&mut b, &sym_tab, &mut listing), Ok(render_bytes(&items)));
}

#[test]
fn the_same_source_gives_the_same_to_the_last_byte() {
    let (mut first, first_table) = program(&COPY);
    let (mut second, second_table) = program(&COPY);
    let mut first_listing = String::new();
    let mut second_listing = String::new();
    let text = gen_records(&mut first, &first_table, &mut first_listing).unwrap();
    assert_eq!(gen_records(&mut second, &second_table, &mut second_listing), Ok(text));
    assert_eq!(first_listing, second_listing);
    for (a, b) in first.iter().zip(second.iter()) {
        assert!(a.identical(b));
    }
    let (mut third, third_table) = program(&COPY);
    let (mut fourth, fourth_table) = program(&COPY);
    let image = vec_gen_records(&mut third, &third_table, &mut first_listing).unwrap();
    assert_eq!(vec_gen_records(&mut fourth, &fourth_table, &mut second_listing), Ok(image));
    assert_eq!(first_listing, second_listing);
}

#[test]
fn a_second_run_over_the_same_statements_adds_the_same_bytes_again() {
    let (mut statements, sym_tab) = program(&COPY);
    emit_records(&mut statements, &sym_tab).unwrap();
    let once: Vec<Vec<u8>> = statements.iter().map(|l| l.obj_code.clone()).collect();
    emit_records(&mut statements, &sym_tab).unwrap();
    for (l, first) in statements.iter().zip(once.iter()) {
        let mut twice = first.clone();
        twice.extend_from_slice(first);
        assert_eq!(l.obj_code, twice);
    }
    assert_eq!(statements[1].obj_code, vec![0x14, 0x20, 0x10, 0x14, 0x20, 0x10]);
}

#[test]
fn a_text_record_is_cut_before_it_would_reach_the_limit() {
    assert_eq!(RECORD_LIMIT, 30);
    let mut source = vec!["P START 0"];
    for _ in 0..11 {
        source.push(" LDA #1");
    }
    source.push(" END");
    let items = items_of(&source).unwrap();
    let word = payload(&[0x01, 0x00, 0x01]);
    let mut expected = vec![ObjectItem::Header { name: "P".to_owned(), start: 0, length: 33 }];
    expected.push(text_start(0));
    for _ in 0..9 {
        expected.push(word.clone());
    }
    // Nine statements make 27 bytes; the tenth would make 30.
    expected.push(text_start(27));
    expected.push(word.clone());
    expected.push(word.clone());
    expected.push(ObjectItem::End { start: 0 });
    assert_eq!(items, expected);
}

#[test]
fn storage_that_is_longer_than_a_record_is_cut_to_the_limit() {
    let long: String = "x".repeat(40);
    let byte = "S BYTE c'".to_owned() + &long + "'";
    let items = items_of(&["P START 0", " LDA #1", &byte, "T BYTE 1", " RSUB", " END"]).unwrap();
    assert_eq!(
        items,
        vec![
            ObjectItem::Header { name: "P".to_owned(), start: 0, length: 47 },
            text_start(0),
            payload(&[0x01, 0x00, 0x01]),
            text_start(3),
            payload(&long.as_bytes()[..30]),
            text_start(33),
            payload(&long.as_bytes()[30..]),
            payload(&[1]),
            payload(&[0x4C, 0, 0]),
            ObjectItem::End { start: 0 },
        ]
    );
    let text: String = (0..70u8).map(|i| (b'0' + i % 10) as char).collect();
    let byte = "S BYTE c'".to_owned() + &text + "'";
    let items = items_of(&["P START 100", &byte, " HIO", " END"]).unwrap();
    assert_eq!(
        items,
        vec![
            ObjectItem::Header { name: "P".to_owned(), start: 100, length: 71 },
            text_start(100),
            payload(&text.as_bytes()[..30]),
            text_start(130),
            payload(&text.as_bytes()[30..60]),
            text_start(160),
            payload(&text.as_bytes()[60..]),
            payload(&[0xF4]),
            ObjectItem::End { start: 100 },
        ]
    );
    // Sixty bytes are two full records, and the next statement opens a third.
    let items = items_of(&["P START 0", &("S BYTE c'".to_owned() + &"z".repeat(60) + "'"), " HIO"])
        .unwrap();
    assert_eq!(
        items,
        vec![
            text_start(0),
            payload(&[b'z'; 30]),
            text_start(30),
            payload(&[b'z'; 30]),
            text_start(60),
            payload(&[0xF4]),
        ]
    );
}

#[test]
fn no_text_record_holds_more_than_the_limit() {
    let mut source = vec!["P START 0".to_owned()];
    for n in [1usize, 29, 30, 31, 59, 60, 61, 7, 100, 2, 28] {
        source.push(format!("V{} BYTE c'{}'", n, "q".repeat(n)));
        source.push(" LDA #7".to_owned());
    }
    source.push(" END".to_owned());
    let lines: Vec<&str> = source.iter().map(|l| l.as_str()).collect();
    let items = items_of(&lines).unwrap();
    let mut open = 0;
    let mut all: Vec<u8> = Vec::new();
    let mut next_address = 0;
    for item in &items {
        match item {
            ObjectItem::TextStart { address } => {
                // Every record starts where the bytes before it end.
                assert_eq!(*address as usize, next_address);
                open = 0;
            }
            ObjectItem::Payload { bytes } => {
                open += bytes.len();
                next_address += bytes.len();
                all.extend_from_slice(bytes);
                assert!(open <= RECORD_LIMIT);
            }
            _ => {}
        }
    }
    let (mut statements, sym_tab) = program(&lines);
    emit_records(&mut statements, &sym_tab).unwrap();
    let expected: Vec<u8> = statements.iter().flat_map(|l| l.obj_code.clone()).collect();
    assert_eq!(all, expected);
}

#[test]
fn a_count_of_exactly_the_limit_opens_a_record_at_the_next_statement() {
    let thirty: String = "y".repeat(30);
    let byte = "S BYTE c'".to_owned() + &thirty + "'";
    let items = items_of(&["P START 0", &byte, " HIO", " END"]).unwrap();
    assert_eq!(
        items,
        vec![
            ObjectItem::Header { name: "P".to_owned(), start: 0, length: 31 },
            text_start(0),
            payload(thirty.as_bytes()),
            text_start(30),
            payload(&[0xF4]),
            ObjectItem::End { start: 0 },
        ]
    );
}

#[test]
fn reserved_storage_closes_the_record() {
    let items = items_of(&[
        "P START 0",
        " HIO",
        "BUF RESB 100",
        ". a remark",
        "",
        "LEN RESW 1",
        " BASE BUF",
        " HIO",
        " END",
    ])
    .unwrap();
    assert_eq!(
        items,
        vec![
            ObjectItem::Header { name: "P".to_owned(), start: 0, length: 105 },
            text_start(0),
            payload(&[0xF4]),
            // The statement after the storage opens a record, though it has no bytes.
            text_start(104),
            payload(&[0xF4]),
            ObjectItem::End { start: 0 },
        ]
    );
}

#[test]
fn every_long_statement_has_its_modification_record() {
    let items = items_of(&[
        "PROG START 0",
        " +LDA BUF",
        " LDA BUF",
        " +STA BUF,X",
        "BUF RESW 1",
        " +J 4096",
        " END",
    ])
    .unwrap();
    let mods: Vec<&ObjectItem> =
        items.iter().filter(|i| matches!(i, ObjectItem::Modification { .. })).collect();
    assert_eq!(
        mods,
        vec![
            &ObjectItem::Modification { address: 1, half_bytes: 5 },
            &ObjectItem::Modification { address: 8, half_bytes: 5 },
            &ObjectItem::Modification { address: 15, half_bytes: 5 },
        ]
    );
    assert_eq!(items.len() - 3, items.iter().position(|i| matches!(i, ObjectItem::Modification { .. })).unwrap());
}

#[test]
fn the_modification_table_keeps_one_entry_for_an_address() {
    let mut t = Modtab::new();
    let rec = |mem_loc: u32, symbol: &str| {
        mod_rec::new().mem_loc(mem_loc).length(5).positive(true).symbol(symbol.to_owned())
    };
    t.insert(rec(7, "A"));
    t.insert(rec(3, "B"));
    t.insert(rec(9, "C"));
    t.insert(rec(3, "D"));
    assert_eq!(t.len(), 3);
    let got: Vec<(u32, u8, bool, &str)> = (0..t.len())
        .map(|i| t.get(i).unwrap())
        .map(|m| (m.mem_loc, m.length, m.pos, m.symbol.as_str()))
        .collect();
    assert_eq!(got, vec![(7, 5, true, "A"), (3, 5, true, "D"), (9, 5, true, "C")]);
    assert!(t.get(3).is_none());
    assert_eq!(Modtab::new().len(), 0);
    assert!(Modtab::new().get(0).is_none());
    // Many entries are found again as fast as few.
    let mut big = Modtab::new();
    for i in 0..20_000u32 {
        big.insert(rec(i.wrapping_mul(2_654_435_761), "P"));
    }
    for i in 0..20_000u32 {
        big.insert(rec(i.wrapping_mul(2_654_435_761), "Q"));
    }
    assert_eq!(big.len(), 20_000);
    assert_eq!(big.get(19_999).unwrap().mem_loc, 19_999u32.wrapping_mul(2_654_435_761));
    assert_eq!(big.get(0).unwrap().symbol, "Q");
    let fresh = mod_rec::new();
    assert_eq!((fresh.mem_loc, fresh.length, fresh.pos, fresh.symbol.as_str()), (0, 0, true, ""));
    assert!(!mod_rec::new().positive(false).pos);
}

#[test]
fn the_emitter_names_what_it_cannot_emit() {
    assert_eq!(
        items_of(&[" LDA #1", " END"]),
        Err(AsmError::MissingRequiredLabel { directive: "START", line_no: 2 })
    );
    assert_eq!(
        items_of(&[" START 0", " END"]),
        Err(AsmError::MissingRequiredLabel { directive: "START", line_no: 2 })
    );
    assert_eq!(
        items_of(&["P START", " LDA #1", " END"]),
        Err(AsmError::InvalidOperandType {
            operation: "START",
            expected: OperandKind::Integer,
            line_no: 3
        })
    );
    assert_eq!(
        items_of(&["P START Q", " END"]),
        Err(AsmError::InvalidOperandType {
            operation: "START",
            expected: OperandKind::Integer,
            line_no: 2
        })
    );
    assert_eq!(
        items_of(&["BUF RESB 1", " +LDA BUF"]),
        Err(AsmError::MissingRequiredLabel { directive: "START", line_no: 2 })
    );
    let unrecognized = vec![Line::new().operation(source_op::Error).line_no(4)];
    assert_eq!(emit(&unrecognized), Err(AsmError::InvalidOpcode { line_no: 4 }));
}

#[test]
fn a_fault_of_the_second_pass_leaves_everything() {
    let (mut statements, sym_tab) = program(&["P START 0", " LDA #1", " LDA LOST", " END"]);
    let before = statements.clone();
    let mut parsed = String::from("kept");
    assert_eq!(
        gen_records(&mut statements, &sym_tab, &mut parsed),
        Err(AsmError::UndefinedSymbolReference { name: "LOST".to_owned(), line_no: 3 })
    );
    assert_eq!(parsed, "kept");
    for (a, b) in before.iter().zip(statements.iter()) {
        assert!(a.identical(b));
    }
    assert_eq!(
        vec_gen_records(&mut statements, &sym_tab, &mut parsed),
        Err(AsmError::UndefinedSymbolReference { name: "LOST".to_owned(), line_no: 3 })
    );
    assert_eq!(parsed, "kept");
    assert!(statements[1].obj_code.is_empty());
}

#[test]
fn a_fault_of_the_emitter_leaves_the_statements_encoded() {
    let (mut statements, sym_tab) = program(&[" LDA #1", " END"]);
    let mut parsed = String::from("kept");
    assert_eq!(
        gen_records(&mut statements, &sym_tab, &mut parsed),
        Err(AsmError::MissingRequiredLabel { directive: "START", line_no: 2 })
    );
    assert_eq!(parsed, "kept");
    assert_eq!(statements[0].obj_code, vec![0x01, 0x00, 0x01]);
}

#[test]
fn a_program_without_end_has_no_header() {
    assert_eq!(
        items_of(&["P START 0", " HIO"]),
        Ok(vec![text_start(0), payload(&[0xF4])])
    );
    assert_eq!(items_of(&[]), Ok(vec![]));
    assert_eq!(items_of(&["", ". nothing"]), Ok(vec![]));
}

#[test]
fn header_records() {
    let start = Line::new()
        .label(Some("COPY".to_owned()))
        .args(vec![sicasm::line::arg_struct {
            val: arg::IntLit(0x1000),
            reg_code: 255,
            modifier: sicasm::line::addr_mod::Direct,
        }]);
    let start = start.mem_loc(0x1000);
    let end = Line::new().mem_loc(0x207A).line_no(20);
    assert_eq!(gen_header_record(&start, &end), Ok("HCOPY  00100000107A".to_owned()));
    let mut bytes = b"H  COPY".to_vec();
    bytes.extend_from_slice(&[0x00, 0x10, 0x00, 0x00, 0x10, 0x7A]);
    assert_eq!(vec_gen_header_record(&start, &end), Ok(bytes));
    assert_eq!(leading_integer(&start.args), Some(0x1000));
    assert_eq!(leading_integer(&end.args), None);

    // The length is the end address less the start address, whatever the
    // address of the statement that starts the program.
    let end = Line::new().mem_loc(0x1000);
    assert_eq!(gen_header_record(&start, &end), Ok("HCOPY  001000000000".to_owned()));
    let end = Line::new().mem_loc(0x1001);
    assert_eq!(gen_header_record(&start.clone().mem_loc(0), &end), Ok("HCOPY  001000000001".to_owned()));

    // A long name is not cut, wide values take the digits they need in the
    // text and lose their high byte in the raw form, and the length wraps.
    let mut wide = start.clone().label(Some("LONGNAME".to_owned()));
    wide.args[0].val = arg::IntLit(-1);
    let end = Line::new().mem_loc(0x1234_5678);
    assert_eq!(gen_header_record(&wide, &end), Ok("HLONGNAMEFFFFFFFF12345679".to_owned()));
    let mut bytes = b"HLONGNAME".to_vec();
    bytes.extend_from_slice(&[0xFF, 0xFF, 0xFF, 0x34, 0x56, 0x79]);
    assert_eq!(vec_gen_header_record(&wide, &end), Ok(bytes));

    let end = Line::new().line_no(9);
    assert_eq!(
        gen_header_record(&Line::new(), &end),
        Err(AsmError::MissingRequiredLabel { directive: "START", line_no: 9 })
    );
    let unplaced = Line::new().label(Some("P".to_owned()));
    assert_eq!(
        vec_gen_header_record(&unplaced, &end),
        Err(AsmError::InvalidOperandType {
            operation: "START",
            expected: OperandKind::Integer,
            line_no: 9
        })
    );
}

#[test]
fn items_as_text_and_as_bytes() {
    let cases: Vec<(ObjectItem, &str, Vec<u8>)> = vec![
        (
            ObjectItem::Header { name: "AB".to_owned(), start: 0x10, length: 0xABCDEF },
            "HAB    000010ABCDEF",
            vec![b'H', b' ', b' ', b' ', b' ', b'A', b'B', 0, 0, 0x10, 0xAB, 0xCD, 0xEF],
        ),
        (ObjectItem::TextStart { address: 0x1E }, "\nT00001E", vec![b'T', 0, 0, 0x1E]),
        (
            ObjectItem::TextStart { address: 0x0123_4567 },
            "\nT1234567",
            vec![b'T', 0x23, 0x45, 0x67],
        ),
        (ObjectItem::Payload { bytes: vec![0x00, 0x05, 0xA0, 0xFF] }, "0005A0FF", vec![0, 5, 0xA0, 0xFF]),
        (ObjectItem::Payload { bytes: vec![] }, "", vec![]),
        (ObjectItem::End { start: 0x3E8 }, "\nE0003E8\n", vec![b'E', 0, 3, 0xE8, 0]),
        (
            ObjectItem::Modification { address: 7, half_bytes: 5 },
            "M00000705\n",
            vec![b'M', 0, 0, 7, 5],
        ),
        (
            ObjectItem::Modification { address: 0x10_0000, half_bytes: 0xAB },
            "M100000AB\n",
            vec![b'M', 0x10, 0, 0, 0xAB],
        ),
    ];
    for (item, text, bytes) in &cases {
        let mut out = String::from(">");
        push_item_text(&mut out, item);
        assert_eq!(out, ">".to_owned() + text);
        let out = push_item_bytes(VecWrapper::new().push_byte(1), item);
        let mut expected = vec![1u8];
        expected.extend_from_slice(bytes);
        assert_eq!(out.vec, expected);
    }
    let all: Vec<ObjectItem> = cases.iter().map(|c| c.0.clone()).collect();
    let text: String = cases.iter().map(|c| c.1).collect();
    let bytes: Vec<u8> = cases.iter().flat_map(|c| c.2.clone()).collect();
    assert_eq!(render_text(&all), text);
    assert_eq!(render_bytes(&all), bytes);
    assert_eq!(render_text(&vec![]), "");
    assert_eq!(render_bytes(&vec![]), Vec::<u8>::new());
}

#[test]
fn the_byte_builder() {
    let w = VecWrapper::new();
    assert!(w.vec.is_empty());
    let w = w.push_byte(b'H').push_word(0x0012_3456).push_word(0xFF00_0001);
    assert_eq!(w.vec, vec![b'H', 0x12, 0x34, 0x56, 0x00, 0x00, 0x01]);
    let w = w.vec(vec![9]).push_str("A\u{e9}".to_owned()).push_vec(&vec![1, 2]).push_vec(&vec![]);
    assert_eq!(w.vec, vec![9, b'A', 0xC3, 0xA9, 1, 2]);
}

#[test]
fn the_counter_of_the_first_pass_follows_the_bytes_of_the_second() {
    let (mut statements, sym_tab) = program(&[
        "P START 0",
        "FIRST STL RETADR",
        " +JSUB FIRST",
        " CLEAR X",
        " COMPR A,T",
        " RSUB",
        " HIO",
        " LDA #4095",
        " J @RETADR",
        "EOF BYTE c'EOF'",
        "FIVE BYTE 1,2,3,4,5",
        "K WORD 1,2",
        "RETADR RESW 1",
        " END FIRST",
    ]);
    emit_records(&mut statements, &sym_tab).unwrap();
    for pair in statements.windows(2) {
        let moved = pair[1].mem_loc - pair[0].mem_loc;
        match pair[0].operation {
            source_op::Instruction(_) => assert_eq!(moved as usize, pair[0].obj_code.len()),
            source_op::Directive(x) if x.name == "BYTE" || x.name == "WORD" => {
                assert_eq!(moved as usize, pair[0].obj_code.len())
            }
            _ => assert!(pair[0].obj_code.is_empty()),
        }
    }
    assert_eq!(statements[statements.len() - 1].mem_loc, 3 + 4 + 2 + 2 + 3 + 1 + 3 + 3 + 3 + 5 + 6 + 3);
}
