//! The object program: the sequence of header, text, end and modification
//! records that the encoded statements fold into, and its two renderings,
//! one as hexadecimal text and one as raw bytes.

use crate::encode::{encode_all, encoded, lines_view, word_bytes};
use crate::listing::{listing, push_listing};
use crate::error::{AsmError, AsmErrorView, OperandKind};
use crate::line;
use crate::line::{
    as_unsigned, first_integer, leading_integer, mod_rec, source_op, table_insert, text_view,
    unsigned, Line, LineView, ModRecView, Modtab, Pos, SourceOpView, Symtab,
};
use crate::text::str_eq;
use crate::text::{hex_bytes, pad_left, pad_right, push_hex, push_hex_bytes, push_padded, right_aligned, spec_hex};
use vstd::prelude::*;
use vstd::utf8::encode_utf8;

verus! {

/// One piece of an object program, in the order of the output.
#[derive(Debug, Clone, PartialEq, Eq)]
pub enum ObjectItem {
    /// The header record: program name, start address and program length.
    Header { name: String, start: u32, length: u32 },
    /// The head of a text record: the address of its first byte.
    TextStart { address: u32 },
    /// The bytes of one statement, which continue the open text record.
    Payload { bytes: Vec<u8> },
    /// The end record: the program's start address.
    End { start: u32 },
    /// A modification record: `half_bytes` half-bytes at `address`.
    Modification { address: u32, half_bytes: u8 },
}

/// The mathematical value of an [`ObjectItem`].
pub enum ItemView {
    Header { name: Seq<char>, start: u32, length: u32 },
    TextStart { address: u32 },
    Payload { bytes: Seq<u8> },
    End { start: u32 },
    Modification { address: u32, half_bytes: u8 },
}

impl View for ObjectItem {
    type V = ItemView;

    open spec fn view(&self) -> ItemView {
        match self {
            ObjectItem::Header { name, start, length } => ItemView::Header {
                name: name@,
                start: *start,
                length: *length,
            },
            ObjectItem::TextStart { address } => ItemView::TextStart { address: *address },
            ObjectItem::Payload { bytes } => ItemView::Payload { bytes: bytes@ },
            ObjectItem::End { start } => ItemView::End { start: *start },
            ObjectItem::Modification { address, half_bytes } => ItemView::Modification {
                address: *address,
                half_bytes: *half_bytes,
            },
        }
    }
}

/// The views of a sequence of items, in order.
pub open spec fn items_view(v: Seq<ObjectItem>) -> Seq<ItemView> {
    Seq::new(v.len(), |i: int| v[i]@)
}

/// One item as text. Addresses and lengths are upper-case hexadecimal with
/// zeros in front, every payload byte is two hexadecimal digits, and the
/// program name is filled up with spaces on the right to six characters.
pub open spec fn item_text(i: ItemView) -> Seq<char> {
    match i {
        ItemView::Header { name, start, length } => seq!['H'] + pad_right(name, 6) + spec_hex(
            start as nat,
            6,
        ) + spec_hex(length as nat, 6),
        ItemView::TextStart { address } => seq!['\n', 'T'] + spec_hex(address as nat, 6),
        ItemView::Payload { bytes } => hex_bytes(bytes),
        ItemView::End { start } => seq!['\n', 'E'] + spec_hex(start as nat, 6) + seq!['\n'],
        ItemView::Modification { address, half_bytes } => seq!['M'] + spec_hex(
            address as nat,
            6,
        ) + spec_hex(half_bytes as nat, 2) + seq!['\n'],
    }
}

/// One item as raw bytes. Addresses and lengths are three bytes, most
/// significant first, holding the value modulo 2^24; the program name is
/// filled up with spaces on the left to six characters; the end record closes
/// with a zero byte.
pub open spec fn item_bytes(i: ItemView) -> Seq<u8> {
    match i {
        ItemView::Header { name, start, length } => seq![0x48u8] + encode_utf8(
            pad_left(name, 6, ' '),
        ) + word_bytes(start as int % 0x100_0000) + word_bytes(length as int % 0x100_0000),
        ItemView::TextStart { address } => seq![0x54u8] + word_bytes(
            address as int % 0x100_0000,
        ),
        ItemView::Payload { bytes } => bytes,
        ItemView::End { start } => seq![0x45u8] + word_bytes(start as int % 0x100_0000) + seq![
            0u8,
        ],
        ItemView::Modification { address, half_bytes } => seq![0x4Du8] + word_bytes(
            address as int % 0x100_0000,
        ) + seq![half_bytes],
    }
}

/// The items as text, one after the other.
pub open spec fn text_of(items: Seq<ItemView>) -> Seq<char>
    decreases items.len(),
{
    if items.len() == 0 {
        Seq::empty()
    } else {
        text_of(items.drop_last()) + item_text(items.last())
    }
}

/// The items as raw bytes, one after the other.
pub open spec fn bytes_of(items: Seq<ItemView>) -> Seq<u8>
    decreases items.len(),
{
    if items.len() == 0 {
        Seq::empty()
    } else {
        bytes_of(items.drop_last()) + item_bytes(items.last())
    }
}

/// A growing vector of bytes with the steps that the raw rendering is made
/// of.
#[derive(Debug, Clone)]
pub struct VecWrapper {
    pub vec: Vec<u8>,
}

impl VecWrapper {
    /// A builder that holds no bytes.
    pub fn new() -> (r: VecWrapper)
        ensures
            r.vec@ == Seq::<u8>::empty(),
    {
        VecWrapper { vec: Vec::new() }
    }

    /// Replaces the bytes held so far.
    pub fn vec(self, v: Vec<u8>) -> (r: VecWrapper)
        ensures
            r.vec == v,
    {
        VecWrapper { vec: v }
    }

    /// Appends the low twenty-four bits of `word`, most significant byte
    /// first.
    pub fn push_word(self, word: u32) -> (r: VecWrapper)
        ensures
            r.vec@ == self.vec@ + word_bytes(word as int % 0x100_0000),
    {
        let mut v = self.vec;
        let w = word % 0x100_0000;
        v.push((w / 0x1_0000) as u8);
        v.push((w / 0x100 % 0x100) as u8);
        v.push((w % 0x100) as u8);
        VecWrapper { vec: v }
    }

    /// Appends one byte.
    pub fn push_byte(self, byte: u8) -> (r: VecWrapper)
        ensures
            r.vec@ == self.vec@.push(byte),
    {
        let mut v = self.vec;
        v.push(byte);
        VecWrapper { vec: v }
    }

    /// Appends the bytes of a text.
    pub fn push_str(self, string: String) -> (r: VecWrapper)
        ensures
            r.vec@ == self.vec@ + encode_utf8(string@),
    {
        let b = string.as_str().as_bytes_vec();
        self.push_vec(&b)
    }

    /// Appends the bytes of `v`.
    pub fn push_vec(self, v: &Vec<u8>) -> (r: VecWrapper)
        ensures
            r.vec@ == self.vec@ + v@,
    {
        let mut out = self.vec;
        let mut i: usize = 0;
        while i < v.len()
            invariant
                i <= v.len(),
                out@ == self.vec@ + v@.subrange(0, i as int),
            decreases v.len() - i,
        {
            out.push(v[i]);
            i = i + 1;
        }
        VecWrapper { vec: out }
    }
}

/// Appends one item as text.
pub fn push_item_text(out: &mut String, item: &ObjectItem)
    ensures
        final(out)@ == old(out)@ + item_text(item@),
{
    match item {
        ObjectItem::Header { name, start, length } => {
            out.push('H');
            push_padded(out, name.as_str(), 6);
            push_hex(out, *start as u64, 6);
            push_hex(out, *length as u64, 6);
        },
        ObjectItem::TextStart { address } => {
            out.push('\n');
            out.push('T');
            push_hex(out, *address as u64, 6);
        },
        ObjectItem::Payload { bytes } => {
            push_hex_bytes(out, bytes);
        },
        ObjectItem::End { start } => {
            out.push('\n');
            out.push('E');
            push_hex(out, *start as u64, 6);
            out.push('\n');
        },
        ObjectItem::Modification { address, half_bytes } => {
            out.push('M');
            push_hex(out, *address as u64, 6);
            push_hex(out, *half_bytes as u64, 2);
            out.push('\n');
        },
    }
}

/// One item as raw bytes, after the bytes held so far.
pub fn push_item_bytes(out: VecWrapper, item: &ObjectItem) -> (r: VecWrapper)
    ensures
        r.vec@ == out.vec@ + item_bytes(item@),
{
    let r = match item {
        ObjectItem::Header { name, start, length } => out.push_byte(0x48).push_str(
            right_aligned(name.as_str(), 6),
        ).push_word(*start).push_word(*length),
        ObjectItem::TextStart { address } => out.push_byte(0x54).push_word(*address),
        ObjectItem::Payload { bytes } => out.push_vec(bytes),
        ObjectItem::End { start } => out.push_byte(0x45).push_word(*start).push_byte(0),
        ObjectItem::Modification { address, half_bytes } => out.push_byte(0x4D).push_word(
            *address,
        ).push_byte(*half_bytes),
    };
    r
}

/// The items as text, one after the other.
pub fn render_text(items: &Vec<ObjectItem>) -> (out: String)
    ensures
        out@ == text_of(items_view(items@)),
{
    let ghost all = items_view(items@);
    let mut out = String::new();
    let mut i: usize = 0;
    while i < items.len()
        invariant
            i <= items.len(),
            all == items_view(items@),
            out@ == text_of(all.subrange(0, i as int)),
        decreases items.len() - i,
    {
        assert(all.subrange(0, i + 1).drop_last() =~= all.subrange(0, i as int));
        push_item_text(&mut out, &items[i]);
        i = i + 1;
    }
    assert(all.subrange(0, i as int) =~= all);
    out
}

/// The items as raw bytes, one after the other.
pub fn render_bytes(items: &Vec<ObjectItem>) -> (out: Vec<u8>)
    ensures
        out@ == bytes_of(items_view(items@)),
{
    let ghost all = items_view(items@);
    let mut out = VecWrapper::new();
    let mut i: usize = 0;
    while i < items.len()
        invariant
            i <= items.len(),
            all == items_view(items@),
            out.vec@ == bytes_of(all.subrange(0, i as int)),
        decreases items.len() - i,
    {
        assert(all.subrange(0, i + 1).drop_last() =~= all.subrange(0, i as int));
        out = push_item_bytes(out, &items[i]);
        i = i + 1;
    }
    assert(all.subrange(0, i as int) =~= all);
    out.vec
}

/// The number of bytes at which a text record is full.
pub const RECORD_LIMIT: usize = 30;

/// Whether a statement reserves storage without content.
pub open spec fn reserves(op: SourceOpView) -> bool {
    op matches SourceOpView::Directive(x) && (x.name == "RESB"@ || x.name == "RESW"@)
}

/// Whether a statement's bytes go into a text record.
pub open spec fn contributes(op: SourceOpView) -> bool {
    match op {
        SourceOpView::Instruction(_) => true,
        SourceOpView::Directive(x) => x.name == "BYTE"@ || x.name == "WORD"@,
        _ => false,
    }
}

/// Whether a statement opens a new text record: the running count of bytes
/// would reach the limit with it. A statement that reserves storage, and a
/// blank one, never does.
pub open spec fn opens_record(counter: nat, l: LineView) -> bool {
    counter + l.obj_code.len() >= RECORD_LIMIT && !reserves(l.operation) && !(l.operation
        is Neh)
}

/// The length of a program from its start address to the address of the
/// statement that closes it; it wraps at 2^32.
pub open spec fn program_length(start: u32, end: u32) -> u32 {
    ((end - start) % 0x1_0000_0000) as u32
}

/// The header item for a program that the given `START` named and placed,
/// closed by the statement `end`: the name, the start address, and the
/// length, which is the address of `end` less the start address.
pub open spec fn header_of(name: Option<Seq<char>>, start: Option<i32>, end: LineView) -> Result<
    ItemView,
    AsmErrorView,
> {
    match name {
        None => Err(
            AsmErrorView::MissingRequiredLabel { directive: "START"@, line_no: end.line_no },
        ),
        Some(n) => match start {
            None => Err(
                AsmErrorView::InvalidOperandType {
                    operation: "START"@,
                    expected: OperandKind::Integer,
                    line_no: end.line_no,
                },
            ),
            Some(v) => Ok(
                ItemView::Header {
                    name: n,
                    start: unsigned(v),
                    length: program_length(unsigned(v), end.mem_loc),
                },
            ),
        },
    }
}

/// What the emitter holds between two statements.
pub struct EmitState {
    /// The header records, the newest first.
    pub headers: Seq<ItemView>,
    /// The text and end records, in the order of the statements.
    pub body: Seq<ItemView>,
    /// The modification table.
    pub mods: Seq<ModRecView>,
    /// The running count of bytes in the open text record.
    pub counter: nat,
    /// The label of the last `START`.
    pub name: Option<Seq<char>>,
    /// The integer operand of the last `START`.
    pub start: Option<i32>,
}

/// The state before the first statement. The count is set so that the first
/// byte opens a text record.
pub open spec fn initial_state() -> EmitState {
    EmitState {
        headers: Seq::empty(),
        body: Seq::empty(),
        mods: Seq::empty(),
        counter: (RECORD_LIMIT - 1) as nat,
        name: None,
        start: None,
    }
}

/// The address `by` bytes after an address; it wraps at 2^32.
pub open spec fn address_after(address: u32, by: int) -> u32 {
    ((address + by) % 0x1_0000_0000) as u32
}

/// The items for the bytes of a statement that stands at `address`. Bytes
/// that fit one text record are one payload. More bytes are cut into payloads
/// of a full record each, and every payload after the first has the head of
/// a new text record before it, at the address of its first byte.
pub open spec fn pieces(bytes: Seq<u8>, address: u32) -> Seq<ItemView>
    decreases bytes.len(),
{
    if bytes.len() <= RECORD_LIMIT {
        seq![ItemView::Payload { bytes }]
    } else {
        let next = address_after(address, RECORD_LIMIT as int);
        seq![
            ItemView::Payload { bytes: bytes.subrange(0, RECORD_LIMIT as int) },
            ItemView::TextStart { address: next },
        ] + pieces(bytes.subrange(RECORD_LIMIT as int, bytes.len() as int), next)
    }
}

/// The number of bytes in the last of the pieces that `n` bytes are cut
/// into.
pub open spec fn last_piece(n: nat) -> nat
    decreases n,
{
    if n <= RECORD_LIMIT {
        n
    } else {
        last_piece((n - RECORD_LIMIT) as nat)
    }
}

/// The state with a statement's bytes added. Bytes that fit one text record
/// continue the open one; more bytes are cut into records of their own, the
/// first of which the statement has opened, and the count is that of the
/// last.
pub open spec fn with_payload(s: EmitState, l: LineView) -> EmitState {
    EmitState {
        body: s.body + pieces(l.obj_code, l.mem_loc),
        counter: if l.obj_code.len() <= RECORD_LIMIT {
            s.counter + l.obj_code.len()
        } else {
            last_piece(l.obj_code.len())
        },
        ..s
    }
}

/// The address one past the opcode byte of a statement.
pub open spec fn field_address(l: LineView) -> u32 {
    ((l.mem_loc + 1) % 0x1_0000_0000) as u32
}

/// The state after one encoded statement. First a text record is opened at
/// the statement's address if the statement asks for one. Then `START` names
/// and places the program; `END` puts a header before everything and an end
/// record after the body; a statement that reserves storage closes the open
/// text record; an instruction, `BYTE` or `WORD` adds its bytes, cut into
/// records of their own where they are more than one record takes; and an
/// instruction of the extended layout enters the address of its address
/// field into the modification table, under the program's name.
///
/// An unrecognized statement is a fault, and so are an `END` and an extended
/// instruction where no `START` has named the program, and an `END` where no
/// `START` has placed it.
pub open spec fn emit_step(s: EmitState, l: LineView) -> Result<EmitState, AsmErrorView> {
    let s1 = if opens_record(s.counter, l) {
        EmitState {
            body: s.body.push(ItemView::TextStart { address: l.mem_loc }),
            counter: 0,
            ..s
        }
    } else {
        s
    };
    match l.operation {
        SourceOpView::Error => Err(AsmErrorView::InvalidOpcode { line_no: l.line_no }),
        SourceOpView::Neh => Ok(s1),
        SourceOpView::Directive(x) => {
            if x.name == "START"@ {
                Ok(EmitState { name: l.label, start: first_integer(l.args), ..s1 })
            } else if x.name == "END"@ {
                match header_of(s1.name, s1.start, l) {
                    Err(e) => Err(e),
                    Ok(h) => Ok(
                        EmitState {
                            headers: seq![h] + s1.headers,
                            body: s1.body.push(ItemView::End { start: h->Header_start }),
                            ..s1
                        },
                    ),
                }
            } else if reserves(l.operation) {
                Ok(EmitState { counter: RECORD_LIMIT as nat, ..s1 })
            } else if contributes(l.operation) {
                Ok(with_payload(s1, l))
            } else {
                Ok(s1)
            }
        },
        SourceOpView::Instruction(_) => {
            let s2 = with_payload(s1, l);
            if l.format is Long {
                match s2.name {
                    None => Err(
                        AsmErrorView::MissingRequiredLabel {
                            directive: "START"@,
                            line_no: l.line_no,
                        },
                    ),
                    Some(n) => Ok(
                        EmitState {
                            mods: table_insert(
                                s2.mods,
                                ModRecView {
                                    mem_loc: field_address(l),
                                    length: 5,
                                    pos: true,
                                    symbol: n,
                                },
                            ),
                            ..s2
                        },
                    ),
                }
            } else {
                Ok(s2)
            }
        },
    }
}

/// The state after a sequence of encoded statements, or the first fault.
pub open spec fn emit_from(s: EmitState, lines: Seq<LineView>) -> Result<EmitState, AsmErrorView>
    decreases lines.len(),
{
    if lines.len() == 0 {
        Ok(s)
    } else {
        match emit_step(s, lines[0]) {
            Err(e) => Err(e),
            Ok(next) => emit_from(next, lines.drop_first()),
        }
    }
}

/// The modification record of a table entry.
pub open spec fn modification(m: ModRecView) -> ItemView {
    ItemView::Modification { address: m.mem_loc, half_bytes: m.length }
}

/// The items of a finished program: the headers, then the text and end
/// records, then one modification record for every entry of the table.
pub open spec fn items_of(s: EmitState) -> Seq<ItemView> {
    s.headers + s.body + Seq::new(s.mods.len(), |i: int| modification(s.mods[i]))
}

/// The object program of a sequence of encoded statements.
pub open spec fn object_items(lines: Seq<LineView>) -> Result<Seq<ItemView>, AsmErrorView> {
    match emit_from(initial_state(), lines) {
        Ok(s) => Ok(items_of(s)),
        Err(e) => Err(e),
    }
}

/// The emitter's state while it folds the statements.
struct Emitter {
    headers: Vec<ObjectItem>,
    body: Vec<ObjectItem>,
    mods: Modtab,
    counter: usize,
    name: Option<String>,
    start: Option<i32>,
}

impl View for Emitter {
    type V = EmitState;

    closed spec fn view(&self) -> EmitState {
        EmitState {
            headers: items_view(self.headers@),
            body: items_view(self.body@),
            mods: self.mods@,
            counter: self.counter as nat,
            name: text_view(self.name),
            start: self.start,
        }
    }
}

fn is_reserving(op: &source_op) -> (r: bool)
    ensures
        r == reserves(op@),
{
    match op {
        source_op::Directive(x) => str_eq(x.name, "RESB") || str_eq(x.name, "RESW"),
        _ => false,
    }
}

fn is_blank(op: &source_op) -> (r: bool)
    ensures
        r == (op@ is Neh),
{
    match op {
        source_op::Neh => true,
        _ => false,
    }
}

fn clone_text(t: &Option<String>) -> (r: Option<String>)
    ensures
        text_view(r) == text_view(*t),
{
    match t {
        Some(s) => Some(s.clone()),
        None => None,
    }
}

/// The header item of a program.
fn header_item(name: &Option<String>, start: Option<i32>, end: &Line) -> (r: Result<
    ObjectItem,
    AsmError,
>)
    ensures
        match header_of(text_view(*name), start, end@) {
            Ok(h) => r is Ok && r->Ok_0@ == h,
            Err(e) => r is Err && r->Err_0@ == e,
        },
{
    match name {
        None => Err(AsmError::MissingRequiredLabel { directive: "START", line_no: end.line_no }),
        Some(n) => match start {
            None => Err(
                AsmError::InvalidOperandType {
                    operation: "START",
                    expected: OperandKind::Integer,
                    line_no: end.line_no,
                },
            ),
            Some(v) => {
                let start = as_unsigned(v);
                let length = if end.mem_loc >= start {
                    end.mem_loc - start
                } else {
                    (end.mem_loc as u64 + 0x1_0000_0000 - start as u64) as u32
                };
                Ok(ObjectItem::Header { name: n.clone(), start, length })
            },
        },
    }
}

/// A copy of a part of a vector of bytes.
fn copy_range(v: &Vec<u8>, from: usize, to: usize) -> (r: Vec<u8>)
    requires
        from <= to <= v.len(),
    ensures
        r@ == v@.subrange(from as int, to as int),
{
    let mut r: Vec<u8> = Vec::new();
    let mut i = from;
    while i < to
        invariant
            from <= i <= to <= v.len(),
            r@ == v@.subrange(from as int, i as int),
        decreases to - i,
    {
        r.push(v[i]);
        i = i + 1;
        assert(r@ =~= v@.subrange(from as int, i as int));
    }
    r
}

fn push_item(items: &mut Vec<ObjectItem>, item: ObjectItem)
    ensures
        items_view(final(items)@) == items_view(old(items)@).push(item@),
{
    items.push(item);
}

impl Emitter {
    fn new() -> (r: Emitter)
        ensures
            r@ == initial_state(),
    {
        let r = Emitter {
            headers: Vec::new(),
            body: Vec::new(),
            mods: Modtab::new(),
            counter: RECORD_LIMIT - 1,
            name: None,
            start: None,
        };
        assert(items_view(r.headers@) =~= Seq::<ItemView>::empty());
        r
    }

    fn add_payload(&mut self, l: &Line)
        requires
            old(self).counter + l.obj_code.len() <= usize::MAX,
        ensures
            final(self)@ == with_payload(old(self)@, l@),
    {
        let len = l.obj_code.len();
        let ghost before = items_view(self.body@);
        let ghost bytes = l.obj_code@;
        if len <= RECORD_LIMIT {
            push_item(&mut self.body, ObjectItem::Payload { bytes: l.obj_code.clone() });
            self.counter = self.counter + len;
            assert(items_view(self.body@) =~= before + pieces(bytes, l.mem_loc));
            return ;
        }
        let mut from: usize = 0;
        let mut address = l.mem_loc;
        assert(bytes.subrange(0, len as int) =~= bytes);
        while len - from > RECORD_LIMIT
            invariant
                from <= len,
                len == l.obj_code.len(),
                bytes == l.obj_code@,
                self.headers == old(self).headers,
                self.mods == old(self).mods,
                self.name == old(self).name,
                self.start == old(self).start,
                items_view(self.body@) + pieces(bytes.subrange(from as int, len as int), address)
                    == before + pieces(bytes, l.mem_loc),
                last_piece((len - from) as nat) == last_piece(len as nat),
            decreases len - from,
        {
            let ghost rest = bytes.subrange(from as int, len as int);
            let ghost held = items_view(self.body@);
            let ghost soon = address_after(address, RECORD_LIMIT as int);
            assert(rest.subrange(0, RECORD_LIMIT as int) =~= bytes.subrange(
                from as int,
                from + RECORD_LIMIT,
            ));
            assert(rest.subrange(RECORD_LIMIT as int, rest.len() as int) =~= bytes.subrange(
                from + RECORD_LIMIT,
                len as int,
            ));
            let chunk = copy_range(&l.obj_code, from, from + RECORD_LIMIT);
            push_item(&mut self.body, ObjectItem::Payload { bytes: chunk });
            address = if address >= 0xFFFF_FFE2 {
                address - 0xFFFF_FFE2
            } else {
                address + 30
            };
            push_item(&mut self.body, ObjectItem::TextStart { address });
            from = from + RECORD_LIMIT;
            let ghost cut = seq![
                ItemView::Payload { bytes: rest.subrange(0, RECORD_LIMIT as int) },
                ItemView::TextStart { address: soon },
            ];
            let ghost more = pieces(bytes.subrange(from as int, len as int), address);
            assert(items_view(self.body@) =~= held + cut);
            assert((held + cut) + more =~= held + (cut + more));
        }
        let ghost held = items_view(self.body@);
        let ghost last = bytes.subrange(from as int, len as int);
        let tail = copy_range(&l.obj_code, from, len);
        push_item(&mut self.body, ObjectItem::Payload { bytes: tail });
        self.counter = len - from;
        assert(items_view(self.body@) =~= held + pieces(last, address));
    }

    fn step(&mut self, l: &Line) -> (r: Result<(), AsmError>)
        ensures
            match emit_step(old(self)@, l@) {
                Ok(next) => r is Ok && final(self)@ == next,
                Err(e) => r is Err && r->Err_0@ == e,
            },
    {
        let len = l.obj_code.len();
        let full = self.counter >= RECORD_LIMIT || len >= RECORD_LIMIT - self.counter;
        if full && !is_reserving(&l.operation) && !is_blank(&l.operation) {
            push_item(&mut self.body, ObjectItem::TextStart { address: l.mem_loc });
            self.counter = 0;
        }
        match l.operation {
            source_op::Error => Err(AsmError::InvalidOpcode { line_no: l.line_no }),
            source_op::Neh => Ok(()),
            source_op::Directive(x) => {
                if str_eq(x.name, "START") {
                    self.name = clone_text(&l.label);
                    self.start = leading_integer(&l.args);
                    Ok(())
                } else if str_eq(x.name, "END") {
                    let h = header_item(&self.name, self.start, l)?;
                    let start = match &h {
                        ObjectItem::Header { start, .. } => *start,
                        _ => 0,
                    };
                    let ghost before = items_view(self.headers@);
                    self.headers.insert(0, h);
                    assert(items_view(self.headers@) =~= seq![h@] + before);
                    push_item(&mut self.body, ObjectItem::End { start });
                    Ok(())
                } else if str_eq(x.name, "RESB") || str_eq(x.name, "RESW") {
                    self.counter = RECORD_LIMIT;
                    Ok(())
                } else if str_eq(x.name, "BYTE") || str_eq(x.name, "WORD") {
                    self.add_payload(l);
                    Ok(())
                } else {
                    Ok(())
                }
            },
            source_op::Instruction(_) => {
                self.add_payload(l);
                match l.format {
                    line::format::Long => {
                        let symbol = match &self.name {
                            Some(n) => n.clone(),
                            None => {
                                return Err(
                                    AsmError::MissingRequiredLabel {
                                        directive: "START",
                                        line_no: l.line_no,
                                    },
                                );
                            },
                        };
                        let address = if l.mem_loc == u32::MAX {
                            0
                        } else {
                            l.mem_loc + 1
                        };
                        self.mods.insert(
                            mod_rec::new().length(5).mem_loc(address).positive(true).symbol(symbol),
                        );
                        Ok(())
                    },
                    _ => Ok(()),
                }
            },
        }
    }

    /// The items of the finished program.
    fn finish(self) -> (r: Vec<ObjectItem>)
        ensures
            items_view(r@) == items_of(self@),
    {
        let mut out = self.headers;
        let mut body = self.body;
        let mods = self.mods;
        let ghost front = items_view(out@) + items_view(body@);
        let ghost table = mods@;
        out.append(&mut body);
        let n = mods.len();
        let mut k: usize = 0;
        while k < n
            invariant
                k <= n,
                n == table.len(),
                table == mods@,
                items_view(out@) == front + Seq::new(k as nat, |i: int| modification(table[i])),
            decreases n - k,
        {
            if let Some(m) = mods.get(k) {
                push_item(
                    &mut out,
                    ObjectItem::Modification { address: m.mem_loc, half_bytes: m.length },
                );
            }
            k = k + 1;
        }
        out
    }
}

/// Folds the encoded statements into the items of the object program, or
/// names the first statement that cannot be emitted.
pub fn emit(lines: &Vec<Line>) -> (r: Result<Vec<ObjectItem>, AsmError>)
    ensures
        match object_items(lines_view(lines@)) {
            Ok(items) => r is Ok && items_view(r->Ok_0@) == items,
            Err(e) => r is Err && r->Err_0@ == e,
        },
{
    let ghost all = lines_view(lines@);
    let mut state = Emitter::new();
    let mut i: usize = 0;
    assert(all.subrange(0, all.len() as int) =~= all);
    while i < lines.len()
        invariant
            i <= lines.len(),
            all == lines_view(lines@),
            emit_from(state@, all.subrange(i as int, all.len() as int)) == emit_from(
                initial_state(),
                all,
            ),
        decreases lines.len() - i,
    {
        let ghost rest = all.subrange(i as int, all.len() as int);
        assert(rest.drop_first() =~= all.subrange(i + 1, all.len() as int));
        match state.step(&lines[i]) {
            Ok(()) => {},
            Err(e) => {
                return Err(e);
            },
        }
        i = i + 1;
    }
    Ok(state.finish())
}

/// The header record as text, for the program that `start_line` names and
/// places and that `end_line` closes: `H`, the name filled up to six
/// characters, the start address and the program length, which is the address
/// of `end_line` less the start address.
pub fn gen_header_record(start_line: &Line, end_line: &Line) -> (r: Result<String, AsmError>)
    ensures
        match header_of(start_line@.label, first_integer(start_line@.args), end_line@) {
            Ok(h) => r is Ok && r->Ok_0@ == item_text(h),
            Err(e) => r is Err && r->Err_0@ == e,
        },
{
    let h = header_item(&start_line.label, leading_integer(&start_line.args), end_line)?;
    let mut out = String::new();
    push_item_text(&mut out, &h);
    Ok(out)
}

/// The header record as raw bytes.
pub fn vec_gen_header_record(start_line: &Line, end_line: &Line) -> (r: Result<
    Vec<u8>,
    AsmError,
>)
    ensures
        match header_of(start_line@.label, first_integer(start_line@.args), end_line@) {
            Ok(h) => r is Ok && r->Ok_0@ == item_bytes(h),
            Err(e) => r is Err && r->Err_0@ == e,
        },
{
    let h = header_item(&start_line.label, leading_integer(&start_line.args), end_line)?;
    let out = push_item_bytes(VecWrapper::new(), &h);
    Ok(out.vec)
}

/// The object program of a sequence of statements: the items that the
/// statements fold into after the second pass, or the first fault.
pub open spec fn object_program(lines: Seq<LineView>, symtab: Map<Seq<char>, Pos>) -> Result<
    Seq<ItemView>,
    AsmErrorView,
> {
    match encoded(lines, symtab) {
        Err(e) => Err(e),
        Ok(v) => object_items(v),
    }
}

/// What a run of the emitter leaves in the statements: the bytes of the
/// second pass added to their payloads, unless the second pass found a fault.
pub open spec fn emitted_lines(lines: Seq<LineView>, symtab: Map<Seq<char>, Pos>) -> Seq<
    LineView,
> {
    match encoded(lines, symtab) {
        Err(_) => lines,
        Ok(v) => v,
    }
}

/// Runs the second pass over the statements and folds them into the items
/// of the object program, which [`render_text`] and [`render_bytes`] turn
/// into its two forms.
///
/// A fault of the second pass leaves the statements as they were. A fault of
/// the emitter leaves them encoded.
pub fn emit_records(statements: &mut Vec<Line>, sym_tab: &Symtab) -> (r: Result<
    Vec<ObjectItem>,
    AsmError,
>)
    ensures
        lines_view(final(statements)@) == emitted_lines(lines_view(old(statements)@), sym_tab@),
        match object_program(lines_view(old(statements)@), sym_tab@) {
            Ok(items) => r is Ok && items_view(r->Ok_0@) == items,
            Err(e) => r is Err && r->Err_0@ == e,
        },
{
    encode_all(statements, sym_tab)?;
    emit(statements)
}

/// Runs the second pass over the statements and renders the object program
/// as text. On success the listing of the encoded statements is appended to
/// `parsed`; on a fault `parsed` stays as it was.
pub fn gen_records(parsed_vec: &mut Vec<Line>, sym_tab: &Symtab, parsed: &mut String) -> (r:
    Result<String, AsmError>)
    ensures
        lines_view(final(parsed_vec)@) == emitted_lines(lines_view(old(parsed_vec)@), sym_tab@),
        match object_program(lines_view(old(parsed_vec)@), sym_tab@) {
            Ok(items) => {
                &&& r is Ok
                &&& r->Ok_0@ == text_of(items)
                &&& final(parsed)@ == old(parsed)@ + listing(lines_view(final(parsed_vec)@), 0)
            },
            Err(e) => r is Err && r->Err_0@ == e && final(parsed)@ == old(parsed)@,
        },
{
    let items = emit_records(parsed_vec, sym_tab)?;
    push_listing(parsed, parsed_vec, 0);
    Ok(render_text(&items))
}

/// Runs the second pass over the statements and renders the object program
/// as raw bytes. On success the listing of the encoded statements, with its
/// last two columns filled up to eight characters, is appended to `parsed`;
/// on a fault `parsed` stays as it was.
pub fn vec_gen_records(parsed_vec: &mut Vec<Line>, sym_tab: &Symtab, parsed: &mut String) -> (r:
    Result<Vec<u8>, AsmError>)
    ensures
        lines_view(final(parsed_vec)@) == emitted_lines(lines_view(old(parsed_vec)@), sym_tab@),
        match object_program(lines_view(old(parsed_vec)@), sym_tab@) {
            Ok(items) => {
                &&& r is Ok
                &&& r->Ok_0@ == bytes_of(items)
                &&& final(parsed)@ == old(parsed)@ + listing(lines_view(final(parsed_vec)@), 8)
            },
            Err(e) => r is Err && r->Err_0@ == e && final(parsed)@ == old(parsed)@,
        },
{
    let items = emit_records(parsed_vec, sym_tab)?;
    push_listing(parsed, parsed_vec, 8);
    Ok(render_bytes(&items))
}

} // verus!
