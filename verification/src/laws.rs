//! What holds of the assembler as a whole: statements about the grammar, the
//! two passes and the emitter that relate several of their functions.

use crate::chars::{decimal_digit, hex_digit, identifier_char, upper_text};
use crate::encode::{
    encode, integer_words, lemma_payloads_len, payloads, with_payloads, NO_BASE,
};
use crate::error::AsmErrorView;
use crate::grammar::{
    comment, dec, hex, hex_base, hex_lit, in_class, label, line_of, mask24, mnemonic_at,
    more_operands, no_statement, num, number_value, operand, operands, parsed_line,
    register_code, run_end, statement_label, str_lit, word, CharClass,
};
use crate::line::{
    addr_mod, distinct_addresses, lemma_insert_keeps_distinct, lemma_position, position,
    table_insert, ArgView, LineView, ModRecView, OpView, OperandView, Pos, SourceOpView,
};
use crate::pass1::{advance, assembled, define, following, placed, resolve};
use crate::records::{
    address_after, contributes, emit_from, emit_step, emitted_lines, field_address,
    initial_state, last_piece, opens_record, pieces, reserves, EmitState, ItemView, RECORD_LIMIT,
};
use crate::tables::{directive_entry, instruction_entry, reserved};
use vstd::prelude::*;

verus! {

/// A run ends where its class ends: if every character from `i` up to `e` is
/// of the class and the one at `e` is not, or `e` is the end of the line,
/// then the run from `i` ends at `e`.
pub proof fn lemma_run_ends_at(s: Seq<char>, i: int, e: int, k: CharClass)
    requires
        0 <= i <= e <= s.len(),
        forall|t: int| i <= t < e ==> in_class(k, #[trigger] s[t]),
        e == s.len() || !in_class(k, s[e]),
    ensures
        run_end(s, i, k) == e,
    decreases e - i,
{
    if i < e {
        lemma_run_ends_at(s, i + 1, e, k);
    }
}

/// One number in its three forms reads as one value: the decimal digits `d`,
/// the hexadecimal digits `h` with the letter `h` after them, and `h` between
/// `x'` and `'` all give their magnitude reduced to twenty-four bits, so where
/// the magnitudes are the same the values are.
pub proof fn lemma_number_forms_agree(d: Seq<char>, h: Seq<char>)
    requires
        d.len() > 0,
        h.len() > 0,
        forall|t: int| 0 <= t < d.len() ==> decimal_digit(#[trigger] d[t]),
        forall|t: int| 0 <= t < h.len() ==> hex_digit(#[trigger] h[t]),
    ensures
        num(d, 0) == Some((mask24(number_value(d, 10)), d.len() as int)),
        num(h + seq!['h'], 0) == Some((mask24(number_value(h, 16)), (h.len() + 1) as int)),
        num(seq!['x', '\''] + h + seq!['\''], 0) == Some(
            (mask24(number_value(h, 16)), (h.len() + 3) as int),
        ),
        num(seq!['X', '\''] + h + seq!['\''], 0) == Some(
            (mask24(number_value(h, 16)), (h.len() + 3) as int),
        ),
{
    // The decimal form: the quoted form does not apply, the form with `h` has
    // no `h`, and the digits are read in radix ten.
    assert(hex_lit(d, 0) is None);
    lemma_run_ends_at(d, 0, d.len() as int, CharClass::Hex);
    assert(hex(d, 0) is None);
    lemma_run_ends_at(d, 0, d.len() as int, CharClass::Decimal);
    assert(d.subrange(0, d.len() as int) =~= d);
    assert(dec(d, 0) == Some((mask24(number_value(d, 10)), d.len() as int)));

    // The form with `h`.
    let n = h.len() as int;
    let a = h + seq!['h'];
    assert(hex_lit(a, 0) is None);
    lemma_run_ends_at(a, 0, n, CharClass::Hex);
    assert(a.subrange(0, n) =~= h);
    assert(hex(a, 0) == Some((mask24(number_value(h, 16)), n + 1)));

    // The quoted form, with a small and with a capital letter.
    let b = seq!['x', '\''] + h + seq!['\''];
    assert forall|t: int| 2 <= t < n + 2 implies in_class(CharClass::Hex, #[trigger] b[t]) by {
        assert(b[t] == h[t - 2]);
    }
    lemma_run_ends_at(b, 2, n + 2, CharClass::Hex);
    assert(b.subrange(2, n + 2) =~= h);
    assert(hex_base(b, 2) == Some((mask24(number_value(h, 16)), n + 2)));
    assert(hex_lit(b, 0) == Some((mask24(number_value(h, 16)), n + 3)));
    let c = seq!['X', '\''] + h + seq!['\''];
    assert forall|t: int| 2 <= t < n + 2 implies in_class(CharClass::Hex, #[trigger] c[t]) by {
        assert(c[t] == h[t - 2]);
    }
    lemma_run_ends_at(c, 2, n + 2, CharClass::Hex);
    assert(c.subrange(2, n + 2) =~= h);
    assert(hex_base(c, 2) == Some((mask24(number_value(h, 16)), n + 2)));
    assert(hex_lit(c, 0) == Some((mask24(number_value(h, 16)), n + 3)));
}

/// No line has a mnemonic for its label: whatever the text, the label of the
/// parsed statement is no directive and no instruction, in either case.
pub proof fn lemma_label_is_no_mnemonic(text: Seq<char>)
    ensures
        parsed_line(text).label matches Some(l) ==> !reserved(upper_text(l)),
{
    let s = line_of(text);
    if !no_statement(s) {
        let i = run_end(s, 0, CharClass::Blank);
        if let Some((l, j)) = statement_label(s, i) {
            // A label is a word with a blank after it, so no `+` stands
            // before it, and the word itself is no mnemonic.
            let e = run_end(s, i, CharClass::Identifier);
            assert(label(s, i) == Some((l, e)));
            assert(mnemonic_at(s, i) is None);
            if 0 <= i < s.len() && s[i] == '+' {
                assert(e == i);
                assert(run_end(s, e, CharClass::Blank) == e);
            }
        }
    }
}

/// Whether a text is a word: it is not empty and made of name characters
/// only.
pub open spec fn is_word(w: Seq<char>) -> bool {
    w.len() > 0 && forall|t: int| 0 <= t < w.len() ==> identifier_char(#[trigger] w[t])
}

/// A label, an instruction and a symbol with one blank between each two
/// read as what they are. The label `l` and the symbol `r` are words that are
/// no mnemonics, `m` is the mnemonic of an instruction in either case, and
/// `r` does not start like a number.
pub proof fn lemma_labelled_instruction(l: Seq<char>, m: Seq<char>, r: Seq<char>)
    requires
        is_word(l),
        !reserved(upper_text(l)),
        is_word(m),
        directive_entry(upper_text(m)) is None,
        instruction_entry(upper_text(m)) is Some,
        is_word(r),
        !reserved(upper_text(r)),
        !hex_digit(r[0]),
    ensures
        parsed_line(l + seq![' '] + m + seq![' '] + r) == (LineView {
            label: Some(l),
            operation: SourceOpView::Instruction(
                OpView { long: false, ..instruction_entry(upper_text(m))->0 },
            ),
            args: seq![
                OperandView {
                    val: ArgView::Label(r),
                    reg_code: register_code(r),
                    modifier: addr_mod::Direct,
                },
            ],
            ..LineView::empty()
        }),
{
    let text = l + seq![' '] + m + seq![' '] + r;
    let a = l.len() as int;
    let b = a + 1 + m.len();
    let c = b + 1;
    let n = text.len() as int;
    assert(n == c + r.len());
    assert forall|t: int| 0 <= t < a implies text[t] == l[t] by {}
    assert(text[a] == ' ');
    assert forall|t: int| a + 1 <= t < b implies text[t] == m[t - a - 1] by {}
    assert(text[b] == ' ');
    assert forall|t: int| c <= t < n implies text[t] == r[t - c] by {}

    // The text is one line.
    assert forall|t: int| 0 <= t < n implies in_class(CharClass::SameLine, #[trigger] text[t]) by {
        if t < a {
            assert(identifier_char(l[t]));
        } else if a + 1 <= t < b {
            assert(identifier_char(m[t - a - 1]));
        } else if c <= t {
            assert(identifier_char(r[t - c]));
        }
    }
    lemma_run_ends_at(text, 0, n, CharClass::SameLine);
    assert(text.subrange(0, n) =~= text);
    assert(line_of(text) == text);

    // The label is the first word, and one blank follows it.
    assert(identifier_char(l[0]));
    lemma_run_ends_at(text, 0, 0, CharClass::Blank);
    assert forall|t: int| 0 <= t < a implies in_class(CharClass::Identifier, #[trigger] text[t]) by {
        assert(identifier_char(l[t]));
    }
    lemma_run_ends_at(text, 0, a, CharClass::Identifier);
    assert(word(text, 0) =~= l);
    assert(identifier_char(m[0]));
    lemma_run_ends_at(text, a, a + 1, CharClass::Blank);
    assert(statement_label(text, 0) == Some((l, a + 1)));

    // The mnemonic is the second word.
    assert forall|t: int| a + 1 <= t < b implies in_class(
        CharClass::Identifier,
        #[trigger] text[t],
    ) by {
        assert(identifier_char(m[t - a - 1]));
    }
    lemma_run_ends_at(text, a + 1, b, CharClass::Identifier);
    assert(word(text, a + 1) =~= m);
    assert(mnemonic_at(text, a + 1) == Some(
        (
            SourceOpView::Instruction(
                OpView { long: false, ..instruction_entry(upper_text(m))->0 },
            ),
            b,
        ),
    ));

    // One blank, and the symbol is the only operand: it is no number and no
    // character string, and nothing follows it.
    assert(identifier_char(r[0]));
    lemma_run_ends_at(text, b, c, CharClass::Blank);
    lemma_run_ends_at(text, c, c, CharClass::Hex);
    lemma_run_ends_at(text, c, c, CharClass::Decimal);
    assert(num(text, c) is None);
    if c + 1 < n {
        assert(identifier_char(r[1]));
    }
    assert(str_lit(text, c) is None);
    assert forall|t: int| c <= t < n implies in_class(CharClass::Identifier, #[trigger] text[t]) by {
        assert(identifier_char(r[t - c]));
    }
    lemma_run_ends_at(text, c, n, CharClass::Identifier);
    assert(word(text, c) =~= r);
    assert(label(text, c) == Some((r, n)));
    let operand_read = OperandView {
        val: ArgView::Label(r),
        reg_code: register_code(r),
        modifier: addr_mod::Direct,
    };
    assert(operand(text, c) == Some((operand_read, n)));
    assert(more_operands(text, n) == (Seq::<OperandView>::empty(), n));
    assert(seq![operand_read] + Seq::<OperandView>::empty() =~= seq![operand_read]);
    assert(operands(text, b) == Some((seq![operand_read], n)));
    lemma_run_ends_at(text, n, n, CharClass::Blank);
    assert(comment(text, n) is None);
}

/// The bytes of `n` integer operands as words are three times `n`.
pub proof fn lemma_integer_words_len(args: Seq<OperandView>)
    ensures
        integer_words(args).len() == 3 * args.len(),
    decreases args.len(),
{
    if args.len() > 0 {
        lemma_integer_words_len(args.drop_last());
    }
}

/// The first pass moves the location counter past a statement by exactly the
/// number of bytes that the second pass gives it: for every instruction, and
/// for `BYTE` and `WORD`, whatever the symbol tables and the base register,
/// if the statement can be encoded at all.
pub proof fn lemma_counter_moves_by_payload(
    p: LineView,
    loc: u32,
    no: u32,
    symtab: Map<Seq<char>, Pos>,
    table: Map<Seq<char>, Pos>,
    base: u32,
)
    requires
        contributes(p.operation),
    ensures
        encode(resolve(p, loc, no, symtab).line, table, base) matches Ok((bytes, _)) ==> resolve(
            p,
            loc,
            no,
            symtab,
        ).next == advance(loc, bytes.len() as int),
{
    // `BYTE` and `WORD` are different words, and the bytes of `WORD` are
    // three for every operand.
    reveal_strlit("BYTE");
    reveal_strlit("WORD");
    lemma_integer_words_len(p.args);
}

/// The first pass leaves a statement on the line that it was given, and at
/// the address of the location counter unless it is a `START` that gives an
/// address of its own.
pub proof fn lemma_resolve_places(p: LineView, loc: u32, no: u32, symtab: Map<Seq<char>, Pos>)
    ensures
        resolve(p, loc, no, symtab).line.line_no == no,
        resolve(p, loc, no, symtab).line.mem_loc == placed(p, loc),
{
    reveal_strlit("START");
    reveal_strlit("BYTE");
    reveal_strlit("WORD");
    reveal_strlit("RESB");
    reveal_strlit("RESW");
    reveal_strlit("EQU");
    // `START` is longer than every directive that takes storage or binds a
    // value, so it is none of them.
    assert("START"@.len() == 5);
    assert("BYTE"@.len() == 4 && "WORD"@.len() == 4);
    assert("RESB"@.len() == 4 && "RESW"@.len() == 4);
    assert("EQU"@.len() == 3);
}

/// The first pass gives every line its statement, whatever faults it finds:
/// there are as many statements as lines, they are numbered from one, and
/// each stands at the address that the location counter had reached before
/// it, or, if it is a `START` that gives an address, at that address.
pub proof fn lemma_one_statement_for_every_line(source: Seq<Seq<char>>)
    ensures
        assembled(source).lines.len() == source.len(),
        assembled(source).line_no == source.len() % 0x1_0000_0000,
        forall|i: int|
            0 <= i < source.len() ==> {
                &&& (#[trigger] assembled(source).lines[i]).line_no == (i + 1) % 0x1_0000_0000
                &&& assembled(source).lines[i].mem_loc == placed(
                    parsed_line(source[i]),
                    assembled(source.subrange(0, i)).loc,
                )
            },
    decreases source.len(),
{
    if source.len() > 0 {
        let n = source.len() - 1;
        let front = source.drop_last();
        let a = assembled(front);
        let no = following(a.line_no);
        let o = resolve(parsed_line(source.last()), a.loc, no, a.symtab);
        lemma_one_statement_for_every_line(front);
        lemma_resolve_places(parsed_line(source.last()), a.loc, no, a.symtab);
        assert(no == (n + 1) % 0x1_0000_0000) by {
            vstd::arithmetic::div_mod::lemma_add_mod_noop(n, 1, 0x1_0000_0000);
        }
        assert(assembled(source).lines == a.lines.push(o.line));
        assert(source.subrange(0, n) =~= front);
        assert forall|i: int| 0 <= i < source.len() implies {
            &&& (#[trigger] assembled(source).lines[i]).line_no == (i + 1) % 0x1_0000_0000
            &&& assembled(source).lines[i].mem_loc == placed(
                    parsed_line(source[i]),
                    assembled(source.subrange(0, i)).loc,
                )
        } by {
            if i < n {
                assert(assembled(source).lines[i] == a.lines[i]);
                assert(source.subrange(0, i) =~= front.subrange(0, i));
            } else {
                assert(assembled(source).lines[i] == o.line);
            }
        }
    }
}

/// A name that the symbol table holds stays as it is through the first pass
/// on any statement.
pub proof fn lemma_symbols_stay(
    p: LineView,
    loc: u32,
    no: u32,
    symtab: Map<Seq<char>, Pos>,
    name: Seq<char>,
)
    requires
        symtab.contains_key(name),
    ensures
        resolve(p, loc, no, symtab).symtab.contains_key(name),
        resolve(p, loc, no, symtab).symtab[name] == symtab[name],
{
}

/// A second definition of a name is a fault that names the line of the first
/// definition and the line of the second, and it leaves the table as it was.
pub proof fn lemma_second_definition(
    l: LineView,
    v: Option<i32>,
    symtab: Map<Seq<char>, Pos>,
    required: Option<Seq<char>>,
)
    requires
        l.label is Some,
        symtab.contains_key(l.label->0),
    ensures
        define(l, v, symtab, required) == (
            symtab,
            Some(
                AsmErrorView::DuplicateSymbol {
                    name: l.label->0,
                    first_line: symtab[l.label->0].line_no,
                    second_line: l.line_no,
                },
            ),
        ),
{
}

/// What the first lines of a program define, the whole program defines in
/// the same way: a later line never changes the entry of a name.
pub proof fn lemma_first_definition_stays(source: Seq<Seq<char>>, k: int, name: Seq<char>)
    requires
        0 <= k <= source.len(),
        assembled(source.subrange(0, k)).symtab.contains_key(name),
    ensures
        assembled(source).symtab.contains_key(name),
        assembled(source).symtab[name] == assembled(source.subrange(0, k)).symtab[name],
    decreases source.len() - k,
{
    if k == source.len() {
        assert(source.subrange(0, k) =~= source);
    } else {
        let next = source.subrange(0, k + 1);
        assert(next.drop_last() =~= source.subrange(0, k));
        let a = assembled(source.subrange(0, k));
        lemma_symbols_stay(
            parsed_line(next.last()),
            a.loc,
            following(a.line_no),
            a.symtab,
            name,
        );
        lemma_first_definition_stays(source, k + 1, name);
    }
}

/// How text records are cut. Where the running count would reach the limit
/// with the bytes of a statement, a new text record is opened at the
/// statement's address first; otherwise the bytes continue the open record,
/// which then stays below the limit. Bytes that fit a record go into the
/// body as one piece, so an instruction is never cut.
pub proof fn lemma_text_records(s: EmitState, l: LineView)
    requires
        contributes(l.operation),
        emit_step(s, l) is Ok,
    ensures
        s.counter + l.obj_code.len() >= RECORD_LIMIT ==> emit_step(s, l)->Ok_0.body == s.body.push(
            ItemView::TextStart { address: l.mem_loc },
        ) + pieces(l.obj_code, l.mem_loc),
        s.counter + l.obj_code.len() < RECORD_LIMIT ==> {
            &&& emit_step(s, l)->Ok_0.body == s.body.push(ItemView::Payload { bytes: l.obj_code })
            &&& emit_step(s, l)->Ok_0.counter == s.counter + l.obj_code.len()
            &&& emit_step(s, l)->Ok_0.counter < RECORD_LIMIT
        },
        l.obj_code.len() <= RECORD_LIMIT ==> pieces(l.obj_code, l.mem_loc) == seq![
            ItemView::Payload { bytes: l.obj_code },
        ],
        RECORD_LIMIT - s.counter <= l.obj_code.len() <= RECORD_LIMIT ==> emit_step(
            s,
            l,
        )->Ok_0.counter == l.obj_code.len(),
{
    lemma_names_differ();
    if s.counter + l.obj_code.len() < RECORD_LIMIT {
        assert(s.body + pieces(l.obj_code, l.mem_loc) =~= s.body.push(
            ItemView::Payload { bytes: l.obj_code },
        ));
    }
}

/// The number of bytes in the text record that is open at the end of a
/// body: those of the payloads that follow its last item which is none.
pub open spec fn open_bytes(body: Seq<ItemView>) -> nat
    decreases body.len(),
{
    if body.len() == 0 {
        0
    } else {
        match body.last() {
            ItemView::Payload { bytes } => open_bytes(body.drop_last()) + bytes.len(),
            _ => 0,
        }
    }
}

/// Whether no text record of a body holds more bytes than the limit: at no
/// item of the body are more bytes open.
pub open spec fn capped(body: Seq<ItemView>) -> bool
    decreases body.len(),
{
    body.len() == 0 || (capped(body.drop_last()) && open_bytes(body) <= RECORD_LIMIT)
}

/// Whether the emitter's count bounds the bytes of the open record, and the
/// limit bounds both.
pub open spec fn within_limit(s: EmitState) -> bool {
    capped(s.body) && open_bytes(s.body) <= s.counter <= RECORD_LIMIT
}

/// What one more item does to the open record.
pub proof fn lemma_one_more_item(body: Seq<ItemView>, item: ItemView)
    ensures
        open_bytes(body.push(item)) == match item {
            ItemView::Payload { bytes } => open_bytes(body) + bytes.len(),
            _ => 0,
        },
        capped(body.push(item)) == (capped(body) && open_bytes(body.push(item)) <= RECORD_LIMIT),
{
    assert(body.push(item).drop_last() =~= body);
}

/// The pieces of a statement's bytes keep to the limit: after a body whose
/// records do, with room in the open record for bytes that are not cut and
/// with a fresh record for bytes that are, no record holds more than the
/// limit, and the last holds what the count says.
pub proof fn lemma_pieces_keep_the_limit(body: Seq<ItemView>, bytes: Seq<u8>, address: u32)
    requires
        capped(body),
        bytes.len() <= RECORD_LIMIT ==> open_bytes(body) + bytes.len() <= RECORD_LIMIT,
        bytes.len() > RECORD_LIMIT ==> open_bytes(body) == 0,
    ensures
        capped(body + pieces(bytes, address)),
        last_piece(bytes.len()) <= RECORD_LIMIT,
        open_bytes(body + pieces(bytes, address)) == if bytes.len() <= RECORD_LIMIT {
            open_bytes(body) + bytes.len()
        } else {
            last_piece(bytes.len())
        },
    decreases bytes.len(),
{
    if bytes.len() <= RECORD_LIMIT {
        let item = ItemView::Payload { bytes };
        lemma_one_more_item(body, item);
        assert(body + pieces(bytes, address) =~= body.push(item));
    } else {
        let next = address_after(address, RECORD_LIMIT as int);
        let first = ItemView::Payload { bytes: bytes.subrange(0, RECORD_LIMIT as int) };
        let head = ItemView::TextStart { address: next };
        let rest = bytes.subrange(RECORD_LIMIT as int, bytes.len() as int);
        let cut = body.push(first).push(head);
        lemma_one_more_item(body, first);
        lemma_one_more_item(body.push(first), head);
        lemma_pieces_keep_the_limit(cut, rest, next);
        assert(body + pieces(bytes, address) =~= cut + pieces(rest, next));
        if rest.len() <= RECORD_LIMIT {
            assert(last_piece(bytes.len()) == rest.len());
        }
    }
}

/// The emitter keeps every text record to the limit, step by step.
pub proof fn lemma_step_keeps_the_limit(s: EmitState, l: LineView)
    requires
        within_limit(s),
        emit_step(s, l) is Ok,
    ensures
        within_limit(emit_step(s, l)->Ok_0),
{
    lemma_names_differ();
    let head = ItemView::TextStart { address: l.mem_loc };
    lemma_one_more_item(s.body, head);
    let opened = opens_record(s.counter, l);
    let body = if opened {
        s.body.push(head)
    } else {
        s.body
    };
    match l.operation {
        SourceOpView::Directive(x) => {
            if x.name != "START"@ && x.name == "END"@ {
                // The end record closes the open record.
                let next = emit_step(s, l)->Ok_0;
                lemma_one_more_item(body, next.body.last());
                assert(next.body =~= body.push(next.body.last()));
            } else if x.name != "START"@ && contributes(l.operation) && !reserves(l.operation) {
                lemma_pieces_keep_the_limit(body, l.obj_code, l.mem_loc);
            }
        },
        SourceOpView::Instruction(_) => {
            lemma_pieces_keep_the_limit(body, l.obj_code, l.mem_loc);
        },
        _ => {},
    }
}

/// No text record holds more bytes than the limit: whatever the statements
/// are, if they can be emitted, the bytes between two heads of text records
/// are at most as many as a record takes.
pub proof fn lemma_records_keep_the_limit(s: EmitState, lines: Seq<LineView>)
    requires
        within_limit(s),
        emit_from(s, lines) is Ok,
    ensures
        within_limit(emit_from(s, lines)->Ok_0),
    decreases lines.len(),
{
    if lines.len() > 0 {
        lemma_step_keeps_the_limit(s, lines[0]);
        lemma_records_keep_the_limit(emit_step(s, lines[0])->Ok_0, lines.drop_first());
    }
}

/// The state before the first statement keeps to the limit, so every
/// program that can be emitted does.
pub proof fn lemma_programs_keep_the_limit(lines: Seq<LineView>)
    requires
        emit_from(initial_state(), lines) is Ok,
    ensures
        capped(emit_from(initial_state(), lines)->Ok_0.body),
{
    lemma_records_keep_the_limit(initial_state(), lines);
}

/// The modification table never holds two entries for one address, whatever
/// the statements are.
pub proof fn lemma_one_modification_for_an_address(s: EmitState, l: LineView)
    requires
        distinct_addresses(s.mods),
        emit_step(s, l) is Ok,
    ensures
        distinct_addresses(emit_step(s, l)->Ok_0.mods),
{
    if l.operation is Instruction && l.format is Long && emit_step(s, l)->Ok_0.mods != s.mods {
        let rec = ModRecView {
            mem_loc: field_address(l),
            length: 5,
            pos: true,
            symbol: emit_step(s, l)->Ok_0.name->0,
        };
        lemma_insert_keeps_distinct(s.mods, rec);
    }
}

/// Whether a table holds an entry for an address.
pub open spec fn has_entry(mods: Seq<ModRecView>, address: u32) -> bool {
    exists|i: int| 0 <= i < mods.len() && (#[trigger] mods[i]).mem_loc == address
}

/// A table holds the address that was entered and every address that it
/// held before.
pub proof fn lemma_insert_keeps_entries(entries: Seq<ModRecView>, rec: ModRecView, address: u32)
    ensures
        has_entry(table_insert(entries, rec), rec.mem_loc),
        has_entry(entries, address) ==> has_entry(table_insert(entries, rec), address),
{
    lemma_position(entries, rec.mem_loc);
    let after = table_insert(entries, rec);
    let p = position(entries, rec.mem_loc);
    assert(after[p].mem_loc == rec.mem_loc);
    if has_entry(entries, address) {
        let i = choose|i: int| 0 <= i < entries.len() && (#[trigger] entries[i]).mem_loc == address;
        assert(after[i].mem_loc == address);
    }
}

/// The emitter never drops an entry of the modification table.
pub proof fn lemma_emitter_keeps_entries(s: EmitState, lines: Seq<LineView>, address: u32)
    requires
        emit_from(s, lines) is Ok,
        has_entry(s.mods, address),
    ensures
        has_entry(emit_from(s, lines)->Ok_0.mods, address),
    decreases lines.len(),
{
    if lines.len() > 0 {
        let next = emit_step(s, lines[0])->Ok_0;
        if next.mods != s.mods {
            let rec = ModRecView {
                mem_loc: field_address(lines[0]),
                length: 5,
                pos: true,
                symbol: next.name->0,
            };
            lemma_insert_keeps_entries(s.mods, rec, address);
        }
        lemma_emitter_keeps_entries(next, lines.drop_first(), address);
    }
}

/// Every instruction of the extended layout has its modification record:
/// if the statements can be emitted, the table holds an entry for the
/// address one past the opcode of every such statement.
pub proof fn lemma_every_long_statement_has_its_record(
    s: EmitState,
    lines: Seq<LineView>,
    k: int,
)
    requires
        emit_from(s, lines) is Ok,
        0 <= k < lines.len(),
        lines[k].operation is Instruction,
        lines[k].format is Long,
    ensures
        has_entry(emit_from(s, lines)->Ok_0.mods, field_address(lines[k])),
    decreases lines.len(),
{
    let next = emit_step(s, lines[0])->Ok_0;
    let rest = lines.drop_first();
    if k == 0 {
        let rec = ModRecView {
            mem_loc: field_address(lines[0]),
            length: 5,
            pos: true,
            symbol: next.name->0,
        };
        lemma_insert_keeps_entries(s.mods, rec, rec.mem_loc);
        lemma_emitter_keeps_entries(next, rest, field_address(lines[0]));
    } else {
        lemma_every_long_statement_has_its_record(next, rest, k - 1);
    }
}

/// The mnemonics that the emitter tells apart are different words.
pub proof fn lemma_names_differ()
    ensures
        "BYTE"@ != "RESB"@,
        "BYTE"@ != "RESW"@,
        "WORD"@ != "RESB"@,
        "WORD"@ != "RESW"@,
        "BYTE"@ != "START"@,
        "BYTE"@ != "END"@,
        "WORD"@ != "START"@,
        "WORD"@ != "END"@,
        "BYTE"@ != "WORD"@,
{
    reveal_strlit("BYTE");
    reveal_strlit("WORD");
    reveal_strlit("RESB");
    reveal_strlit("RESW");
    reveal_strlit("START");
    reveal_strlit("END");
    assert("BYTE"@[0] == 'B');
    assert("WORD"@[0] == 'W');
}

/// The bytes that a statement already carries have no part in its encoding.
pub proof fn lemma_encode_ignores_payload(
    l: LineView,
    bytes: Seq<u8>,
    symtab: Map<Seq<char>, Pos>,
    base: u32,
)
    ensures
        encode(LineView { obj_code: bytes, ..l }, symtab, base) == encode(l, symtab, base),
{
}

/// The bytes that a run adds are the same whatever the statements carry.
pub proof fn lemma_payloads_ignore_payloads(
    lines: Seq<LineView>,
    q: Seq<Seq<u8>>,
    symtab: Map<Seq<char>, Pos>,
    base: u32,
)
    requires
        q.len() == lines.len(),
    ensures
        payloads(with_payloads(lines, q), symtab, base) == payloads(lines, symtab, base),
    decreases lines.len(),
{
    if lines.len() > 0 {
        let w = with_payloads(lines, q);
        lemma_encode_ignores_payload(lines[0], lines[0].obj_code + q[0], symtab, base);
        assert(w[0] == (LineView { obj_code: lines[0].obj_code + q[0], ..lines[0] }));
        assert(w.drop_first() =~= with_payloads(lines.drop_first(), q.drop_first()));
        if let Ok((bytes, next)) = encode(lines[0], symtab, base) {
            lemma_payloads_ignore_payloads(lines.drop_first(), q.drop_first(), symtab, next);
        }
    }
}

/// A second run over the statements of a first run adds the bytes that the
/// first run added, neither more nor other ones.
pub proof fn lemma_second_run(lines: Seq<LineView>, symtab: Map<Seq<char>, Pos>)
    ensures
        payloads(emitted_lines(lines, symtab), symtab, NO_BASE) == payloads(
            lines,
            symtab,
            NO_BASE,
        ),
{
    if let Ok(p) = payloads(lines, symtab, NO_BASE) {
        lemma_payloads_len(lines, symtab, NO_BASE);
        lemma_payloads_ignore_payloads(lines, p, symtab, NO_BASE);
    }
}

/// The statements that the first pass gives carry no bytes, so the payload
/// of each after the second pass is its encoding and nothing else, and the
/// object program of a source text is the same whenever it is assembled.
pub proof fn lemma_fresh_statements_carry_nothing(source: Seq<Seq<char>>, i: int)
    requires
        0 <= i < source.len(),
    ensures
        i < assembled(source).lines.len(),
        assembled(source).lines[i].obj_code == Seq::<u8>::empty(),
    decreases source.len(),
{
    lemma_one_statement_for_every_line(source);
    let front = source.drop_last();
    if i < source.len() - 1 {
        lemma_fresh_statements_carry_nothing(front, i);
        lemma_one_statement_for_every_line(front);
        assert(assembled(source).lines[i] == assembled(front).lines[i]);
    } else {
        lemma_one_statement_for_every_line(front);
        let a = assembled(front);
        let p = parsed_line(source.last());
        lemma_resolve_keeps_payload(p, a.loc, following(a.line_no), a.symtab);
        assert(assembled(source).lines[i] == resolve(
            p,
            a.loc,
            following(a.line_no),
            a.symtab,
        ).line);
    }
}

/// The first pass leaves the payload of a statement as it is.
pub proof fn lemma_resolve_keeps_payload(
    p: LineView,
    loc: u32,
    no: u32,
    symtab: Map<Seq<char>, Pos>,
)
    ensures
        resolve(p, loc, no, symtab).line.obj_code == p.obj_code,
{
}

} // verus!
