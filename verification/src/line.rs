//! The data model: statements, operands, operations and table entries,
//! together with the mathematical views that the contracts speak of.

#![allow(non_camel_case_types)]

use std::collections::HashMap;
use vstd::hash_map::StringHashMap;
use vstd::prelude::*;
use vstd::std_specs::hash::group_hash_axioms;

verus! {

/// Register code of an operand that does not name a register.
pub const NOT_A_REGISTER: u8 = 0xFF;

/// Register code of the index register `X`.
pub const INDEX_REGISTER: u8 = 0x01;

/// A symbol table entry: where the symbol was defined and what it stands for.
///
/// `val` is `Some` for a symbol bound to a constant and `None` for a symbol
/// that names the address `mem_loc`.
#[derive(Debug, Clone, Copy, PartialEq, Eq)]
pub struct Pos {
    pub line_no: u32,
    pub mem_loc: u32,
    pub val: Option<i32>,
}

impl Pos {
    /// What a reference to the symbol resolves to: its constant if it has
    /// one, else its address.
    pub open spec fn target(self) -> int {
        match self.val {
            Some(v) => v as int,
            None => self.mem_loc as int,
        }
    }
}

/// The symbol table: every defined name with its entry.
pub type Symtab = StringHashMap<Pos>;

/// An entry of the modification table: the half-bytes at `mem_loc` that a
/// loader has to relocate.
#[derive(Debug, Clone)]
pub struct mod_rec {
    pub mem_loc: u32,
    pub length: u8,
    pub pos: bool,
    pub symbol: String,
}

impl mod_rec {
    /// An entry for no half-bytes at address zero, with a positive sign and no
    /// symbol.
    pub fn new() -> (r: mod_rec)
        ensures
            r.mem_loc == 0,
            r.length == 0,
            r.pos,
            r.symbol@ == Seq::<char>::empty(),
    {
        mod_rec { mem_loc: 0, length: 0, pos: true, symbol: String::new() }
    }

    /// The entry with another address.
    pub fn mem_loc(self, m: u32) -> (r: mod_rec)
        ensures
            r == (mod_rec { mem_loc: m, ..self }),
    {
        let mut r = self;
        r.mem_loc = m;
        r
    }

    /// The entry with another number of half-bytes.
    pub fn length(self, m: u8) -> (r: mod_rec)
        ensures
            r == (mod_rec { length: m, ..self }),
    {
        let mut r = self;
        r.length = m;
        r
    }

    /// The entry with another sign.
    pub fn positive(self, m: bool) -> (r: mod_rec)
        ensures
            r == (mod_rec { pos: m, ..self }),
    {
        let mut r = self;
        r.pos = m;
        r
    }

    /// The entry with another symbol.
    pub fn symbol(self, m: String) -> (r: mod_rec)
        ensures
            r == (mod_rec { symbol: m, ..self }),
    {
        let mut r = self;
        r.symbol = m;
        r
    }
}

/// The mathematical value of a [`mod_rec`].
pub struct ModRecView {
    pub mem_loc: u32,
    pub length: u8,
    pub pos: bool,
    pub symbol: Seq<char>,
}

impl View for mod_rec {
    type V = ModRecView;

    open spec fn view(&self) -> ModRecView {
        ModRecView {
            mem_loc: self.mem_loc,
            length: self.length,
            pos: self.pos,
            symbol: self.symbol@,
        }
    }
}

/// The index of the first entry for an address, or the length of the
/// sequence if it holds none.
pub open spec fn position(entries: Seq<ModRecView>, address: u32) -> int
    decreases entries.len(),
{
    if entries.len() == 0 {
        0
    } else if entries[0].mem_loc == address {
        0
    } else {
        1 + position(entries.drop_first(), address)
    }
}

/// The entries after one more is entered: it takes the place of the entry
/// for its address, or the last place if there is none.
pub open spec fn table_insert(entries: Seq<ModRecView>, rec: ModRecView) -> Seq<ModRecView> {
    let i = position(entries, rec.mem_loc);
    if i < entries.len() {
        entries.update(i, rec)
    } else {
        entries.push(rec)
    }
}

/// Whether no two entries are for one address.
pub open spec fn distinct_addresses(entries: Seq<ModRecView>) -> bool {
    forall|i: int, j: int|
        0 <= i < j < entries.len() ==> (#[trigger] entries[i]).mem_loc != (
        #[trigger] entries[j]).mem_loc
}

/// What `position` finds: an entry for the address with none before it, or
/// the end of a sequence that holds none.
pub proof fn lemma_position(entries: Seq<ModRecView>, address: u32)
    ensures
        0 <= position(entries, address) <= entries.len(),
        position(entries, address) < entries.len() ==> entries[position(
            entries,
            address,
        )].mem_loc == address,
        forall|k: int|
            0 <= k < position(entries, address) ==> (#[trigger] entries[k]).mem_loc != address,
    decreases entries.len(),
{
    if entries.len() > 0 && entries[0].mem_loc != address {
        let rest = entries.drop_first();
        lemma_position(rest, address);
        assert forall|k: int| 0 <= k < position(entries, address) implies (
        #[trigger] entries[k]).mem_loc != address by {
            if k > 0 {
                assert(entries[k] == rest[k - 1]);
            }
        }
    }
}

/// Entering a record keeps the addresses apart.
pub proof fn lemma_insert_keeps_distinct(entries: Seq<ModRecView>, rec: ModRecView)
    requires
        distinct_addresses(entries),
    ensures
        distinct_addresses(table_insert(entries, rec)),
{
    lemma_position(entries, rec.mem_loc);
}

/// The modification table: a map from an address to its entry, and beside it
/// the addresses in the order in which they were first entered. The order is
/// part of the table, because the modification records are written in it:
/// the same statements give the same records in the same order.
#[derive(Debug)]
pub struct Modtab {
    entries: HashMap<u32, mod_rec>,
    order: Vec<u32>,
}

impl View for Modtab {
    type V = Seq<ModRecView>;

    closed spec fn view(&self) -> Seq<ModRecView> {
        Seq::new(self.order@.len(), |i: int| self.entries@[self.order@[i]]@)
    }
}

impl Modtab {
    /// The map and the order hold the same addresses, the order holds none
    /// twice, and every entry stands under its own address.
    #[verifier::type_invariant]
    closed spec fn consistent(&self) -> bool {
        &&& forall|i: int|
            0 <= i < self.order@.len() ==> self.entries@.contains_key(#[trigger] self.order@[i])
        &&& forall|i: int|
            0 <= i < self.order@.len() ==> self.entries@[#[trigger] self.order@[i]].mem_loc
                == self.order@[i]
        &&& forall|i: int, j: int|
            0 <= i < j < self.order@.len() ==> self.order@[i] != self.order@[j]
        &&& forall|k: u32| #[trigger] self.entries@.contains_key(k) ==> self.order@.contains(k)
    }

    /// Whether the table holds at most one entry for an address.
    pub open spec fn wf(&self) -> bool {
        distinct_addresses(self@)
    }

    /// The table without entries.
    pub fn new() -> (r: Modtab)
        ensures
            r@ == Seq::<ModRecView>::empty(),
            r.wf(),
    {
        let r = Modtab { entries: HashMap::new(), order: Vec::new() };
        assert(r@ =~= Seq::<ModRecView>::empty());
        r
    }

    /// The number of entries.
    pub fn len(&self) -> (r: usize)
        ensures
            r == self@.len(),
    {
        self.order.len()
    }

    /// The entry in place `i` of the order of first entry, if there are so
    /// many.
    pub fn get(&self, i: usize) -> (r: Option<&mod_rec>)
        ensures
            i < self@.len() ==> r is Some && r->0@ == self@[i as int],
            i >= self@.len() ==> r is None,
    {
        broadcast use group_hash_axioms;

        proof {
            use_type_invariant(self);
        }
        if i < self.order.len() {
            let k = self.order[i];
            self.entries.get(&k)
        } else {
            None
        }
    }

    /// Enters a record under its address. A record that the table holds for
    /// the same address is replaced, in its place.
    pub fn insert(&mut self, rec: mod_rec)
        ensures
            final(self)@ == table_insert(old(self)@, rec@),
            final(self).wf(),
    {
        broadcast use group_hash_axioms;

        proof {
            use_type_invariant(&*self);
        }
        let ghost before = self@;
        let mut taken = Modtab::new();
        std::mem::swap(self, &mut taken);
        let Modtab { entries, order } = taken;
        let mut entries = entries;
        let mut order = order;
        let ghost old_entries = entries@;
        let ghost old_order = order@;
        let k = rec.mem_loc;
        let ghost added = rec@;
        let present = entries.contains_key(&k);
        entries.insert(k, rec);
        proof {
            lemma_position(before, k);
            let p = position(before, k);
            assert forall|i: int| 0 <= i < before.len() implies (#[trigger] before[i]).mem_loc
                == old_order[i] by {}
            if present {
                let at = choose|i: int| 0 <= i < old_order.len() && old_order[i] == k;
                assert(old_order.contains(k));
                assert(before[at].mem_loc == k);
                assert(p == at) by {
                    if p < at {
                        assert(before[p].mem_loc == k);
                    }
                }
            } else {
                assert(p == before.len()) by {
                    if p < before.len() {
                        assert(before[p].mem_loc == k);
                        assert(old_entries.contains_key(old_order[p]));
                    }
                }
            }
        }
        if !present {
            order.push(k);
        }
        proof {
            let map = entries@;
            let seq = order@;
            assert forall|i: int| 0 <= i < seq.len() implies map.contains_key(#[trigger] seq[i])
                && map[seq[i]].mem_loc == seq[i] by {
                if i < old_order.len() {
                    assert(old_entries.contains_key(old_order[i]));
                    assert(old_entries[old_order[i]].mem_loc == old_order[i]);
                }
            }
            assert forall|i: int, j: int| 0 <= i < j < seq.len() implies seq[i] != seq[j] by {
                if j >= old_order.len() {
                    assert(old_entries.contains_key(old_order[i]));
                }
            }
            assert forall|q: u32| #[trigger] map.contains_key(q) implies seq.contains(q) by {
                if q == k && !present {
                    assert(seq[old_order.len() as int] == k);
                } else {
                    assert(old_entries.contains_key(q));
                    assert(old_order.contains(q));
                    let at = choose|i: int| 0 <= i < old_order.len() && old_order[i] == q;
                    assert(seq[at] == q);
                }
            }
        }
        let r = Modtab { entries, order };
        proof {
            assert(r@ =~= table_insert(before, added));
            assert(distinct_addresses(before));
            lemma_insert_keeps_distinct(before, added);
        }
        *self = r;
    }
}

/// The byte layout class of a statement.
#[derive(Debug, Clone, Copy, PartialEq, Eq, Structural)]
pub enum format {
    Opless,
    Register,
    Normal,
    Long,
    /// No layout has been assigned yet.
    Unassigned,
    Directive,
    Comment,
}

/// How an operand addresses its target.
#[derive(Debug, Clone, Copy, PartialEq, Eq, Structural)]
pub enum addr_mod {
    Direct,
    Indirect,
    Immediate,
    Literal,
}

impl addr_mod {
    /// The bits that the mode contributes to the opcode byte.
    pub open spec fn spec_bits(self) -> u8 {
        match self {
            addr_mod::Direct => 0x00,
            addr_mod::Indirect => 0x02,
            addr_mod::Immediate => 0x01,
            addr_mod::Literal => 0x12,
        }
    }

    #[verifier::when_used_as_spec(spec_bits)]
    /// The bits that the mode contributes to the opcode byte.
    pub fn bits(self) -> (r: u8)
        ensures
            r == self.spec_bits(),
    {
        match self {
            addr_mod::Direct => 0x00,
            addr_mod::Indirect => 0x02,
            addr_mod::Immediate => 0x01,
            addr_mod::Literal => 0x12,
        }
    }
}

/// The content of an operand.
#[derive(Debug)]
pub enum arg {
    Label(String),
    StrLit(String),
    IntLit(i32),
    Expr(Box<expr_struct>),
}

/// A binary expression over two operands.
#[derive(Debug)]
pub struct expr_struct {
    pub lhs: arg,
    pub op: u8,
    pub rhs: arg,
}

/// The mathematical value of an [`arg`].
pub enum ArgView {
    Label(Seq<char>),
    StrLit(Seq<char>),
    IntLit(i32),
    Expr(Box<ExprView>),
}

/// The mathematical value of an [`expr_struct`].
pub struct ExprView {
    pub lhs: ArgView,
    pub op: u8,
    pub rhs: ArgView,
}

/// The mathematical value of an operand content.
pub open spec fn arg_view(a: arg) -> ArgView
    decreases a,
{
    match a {
        arg::Label(s) => ArgView::Label(s@),
        arg::StrLit(s) => ArgView::StrLit(s@),
        arg::IntLit(n) => ArgView::IntLit(n),
        arg::Expr(e) => ArgView::Expr(
            Box::new(ExprView { lhs: arg_view(e.lhs), op: e.op, rhs: arg_view(e.rhs) }),
        ),
    }
}

impl View for arg {
    type V = ArgView;

    open spec fn view(&self) -> ArgView {
        arg_view(*self)
    }
}

impl View for expr_struct {
    type V = ExprView;

    open spec fn view(&self) -> ExprView {
        ExprView { lhs: self.lhs@, op: self.op, rhs: self.rhs@ }
    }
}

impl arg {
    /// A copy of the operand content.
    pub fn duplicate(&self) -> (r: arg)
        ensures
            r@ == self@,
        decreases self,
    {
        match self {
            arg::Label(s) => arg::Label(s.clone()),
            arg::StrLit(s) => arg::StrLit(s.clone()),
            arg::IntLit(n) => arg::IntLit(*n),
            arg::Expr(e) => arg::Expr(
                Box::new(
                    expr_struct { lhs: e.lhs.duplicate(), op: e.op, rhs: e.rhs.duplicate() },
                ),
            ),
        }
    }
}

impl Clone for arg {
    fn clone(&self) -> (r: arg)
        ensures
            r@ == self@,
    {
        self.duplicate()
    }
}

impl Clone for expr_struct {
    fn clone(&self) -> (r: expr_struct)
        ensures
            r@ == self@,
    {
        expr_struct { lhs: self.lhs.duplicate(), op: self.op, rhs: self.rhs.duplicate() }
    }
}

impl arg {
    /// The integer of an integer literal.
    pub fn unwrap_as_int(&self) -> (r: Option<i32>)
        ensures
            r == match self@ {
                ArgView::IntLit(n) => Some(n),
                _ => None,
            },
    {
        match self {
            arg::IntLit(x) => Some(*x),
            _ => None,
        }
    }

    /// The text of a string literal, and the empty text for anything else.
    pub fn unwrap_as_string(&self) -> (r: &str)
        ensures
            r@ == match self@ {
                ArgView::StrLit(s) => s,
                _ => Seq::<char>::empty(),
            },
    {
        match self {
            arg::StrLit(x) => x.as_str(),
            _ => {
                proof {
                    reveal_strlit("");
                }
                ""
            },
        }
    }
}

/// One operand of a statement.
#[derive(Debug)]
pub struct arg_struct {
    pub val: arg,
    pub reg_code: u8,
    pub modifier: addr_mod,
}

/// The mathematical value of an [`arg_struct`].
pub struct OperandView {
    pub val: ArgView,
    pub reg_code: u8,
    pub modifier: addr_mod,
}

impl View for arg_struct {
    type V = OperandView;

    open spec fn view(&self) -> OperandView {
        OperandView { val: self.val@, reg_code: self.reg_code, modifier: self.modifier }
    }
}

impl Clone for arg_struct {
    fn clone(&self) -> (r: arg_struct)
        ensures
            r@ == self@,
    {
        arg_struct { val: self.val.duplicate(), reg_code: self.reg_code, modifier: self.modifier }
    }
}

/// The views of a sequence of operands, in order.
pub open spec fn operands_view(v: Seq<arg_struct>) -> Seq<OperandView> {
    Seq::new(v.len(), |i: int| v[i]@)
}

/// A copy of an operand list.
pub fn clone_operands(v: &Vec<arg_struct>) -> (r: Vec<arg_struct>)
    ensures
        operands_view(r@) == operands_view(v@),
{
    let mut r: Vec<arg_struct> = Vec::new();
    let mut i: usize = 0;
    while i < v.len()
        invariant
            i <= v.len(),
            r.len() == i,
            forall|k: int| 0 <= k < i ==> r[k]@ == v[k]@,
        decreases v.len() - i,
    {
        r.push(v[i].clone());
        i = i + 1;
    }
    r
}

/// The integer of the first operand, if it is an integer literal.
pub open spec fn first_integer(args: Seq<OperandView>) -> Option<i32> {
    if args.len() > 0 && args[0].val is IntLit {
        Some(args[0].val->IntLit_0)
    } else {
        None
    }
}

/// A signed thirty-two-bit value read as an unsigned one.
pub open spec fn unsigned(v: i32) -> u32 {
    (v as int % 0x1_0000_0000) as u32
}

/// The integer of the first operand, if it is an integer literal.
pub fn leading_integer(args: &Vec<arg_struct>) -> (r: Option<i32>)
    ensures
        r == first_integer(operands_view(args@)),
{
    if args.len() > 0 {
        match &args[0].val {
            arg::IntLit(v) => Some(*v),
            _ => None,
        }
    } else {
        None
    }
}

/// A signed thirty-two-bit value read as an unsigned one.
pub fn as_unsigned(v: i32) -> (r: u32)
    ensures
        r == unsigned(v),
{
    if v >= 0 {
        v as u32
    } else {
        (v as i64 + 0x1_0000_0000) as u32
    }
}

/// An entry of the operation tables: its code, its mnemonic, and whether it
/// is to be encoded in the extended four-byte layout.
#[derive(Debug, Clone, Copy)]
pub struct op_struct {
    pub opcode: u8,
    pub name: &'static str,
    pub long: bool,
}

/// The mathematical value of an [`op_struct`].
pub struct OpView {
    pub opcode: u8,
    pub name: Seq<char>,
    pub long: bool,
}

impl View for op_struct {
    type V = OpView;

    open spec fn view(&self) -> OpView {
        OpView { opcode: self.opcode, name: self.name@, long: self.long }
    }
}

impl op_struct {
    /// An entry for the ordinary layout.
    pub fn new(oc: u8, n: &'static str) -> (r: op_struct)
        ensures
            r@ == (OpView { opcode: oc, name: n@, long: false }),
    {
        op_struct { opcode: oc, name: n, long: false }
    }

    /// The entry with the flag of the extended layout set to `l`.
    pub fn long(self, l: bool) -> (r: op_struct)
        ensures
            r@ == (OpView { long: l, ..self@ }),
    {
        op_struct { opcode: self.opcode, name: self.name, long: l }
    }
}

/// What a statement asks for.
#[derive(Debug, Clone, Copy)]
pub enum source_op {
    Directive(op_struct),
    Instruction(op_struct),
    /// A blank or comment-only line.
    Neh,
    /// A line whose operation is no known mnemonic.
    Error,
}

/// The mathematical value of a [`source_op`].
pub enum SourceOpView {
    Directive(OpView),
    Instruction(OpView),
    Neh,
    Error,
}

impl View for source_op {
    type V = SourceOpView;

    open spec fn view(&self) -> SourceOpView {
        match self {
            source_op::Directive(x) => SourceOpView::Directive(x@),
            source_op::Instruction(x) => SourceOpView::Instruction(x@),
            source_op::Neh => SourceOpView::Neh,
            source_op::Error => SourceOpView::Error,
        }
    }
}

impl SourceOpView {
    /// The mnemonic of a directive, and a placeholder for anything else.
    pub open spec fn directive_name(self) -> Seq<char> {
        match self {
            SourceOpView::Directive(x) => x.name,
            _ => "not directive"@,
        }
    }

    /// The mnemonic of an instruction, and a placeholder for anything else.
    pub open spec fn instruction_name(self) -> Seq<char> {
        match self {
            SourceOpView::Instruction(x) => x.name,
            _ => "not instruction"@,
        }
    }
}

impl source_op {
    /// The mnemonic of a directive, and `not directive` for anything else.
    pub fn unwrap_as_directive(&self) -> (r: String)
        ensures
            r@ == self@.directive_name(),
    {
        match self {
            source_op::Directive(x) => x.name.to_owned(),
            _ => "not directive".to_owned(),
        }
    }

    /// The mnemonic of an instruction, and `not instruction` for anything else.
    pub fn unwrap_as_instruction(&self) -> (r: String)
        ensures
            r@ == self@.instruction_name(),
    {
        match self {
            source_op::Instruction(x) => x.name.to_owned(),
            _ => "not instruction".to_owned(),
        }
    }

    /// Sets the extended-layout flag of an instruction; anything else is
    /// returned as it is.
    pub fn instr_long_mode(self, l: bool) -> (r: source_op)
        ensures
            r@ == match self@ {
                SourceOpView::Instruction(x) => SourceOpView::Instruction(
                    OpView { long: l, ..x },
                ),
                other => other,
            },
    {
        match self {
            source_op::Instruction(x) => source_op::Instruction(x.long(l)),
            _ => self,
        }
    }
}

/// One statement of the program: a source line, its address, layout and bytes.
#[derive(Debug)]
pub struct Line {
    pub label: Option<String>,
    pub operation: source_op,
    pub args: Vec<arg_struct>,
    pub comment: String,
    pub line_no: u32,
    pub mem_loc: u32,
    pub format: format,
    pub obj_code: Vec<u8>,
}

/// The mathematical value of a [`Line`].
pub struct LineView {
    pub label: Option<Seq<char>>,
    pub operation: SourceOpView,
    pub args: Seq<OperandView>,
    pub comment: Seq<char>,
    pub line_no: u32,
    pub mem_loc: u32,
    pub format: format,
    pub obj_code: Seq<u8>,
}

/// The view of an optional text.
pub open spec fn text_view(t: Option<String>) -> Option<Seq<char>> {
    match t {
        Some(s) => Some(s@),
        None => None,
    }
}

impl View for Line {
    type V = LineView;

    open spec fn view(&self) -> LineView {
        LineView {
            label: text_view(self.label),
            operation: self.operation@,
            args: operands_view(self.args@),
            comment: self.comment@,
            line_no: self.line_no,
            mem_loc: self.mem_loc,
            format: self.format,
            obj_code: self.obj_code@,
        }
    }
}

impl LineView {
    /// The statement that carries nothing.
    pub open spec fn empty() -> LineView {
        LineView {
            label: None,
            operation: SourceOpView::Neh,
            args: Seq::empty(),
            comment: Seq::empty(),
            line_no: 0,
            mem_loc: 0,
            format: format::Unassigned,
            obj_code: Seq::empty(),
        }
    }
}

impl Line {
    /// The statement that carries nothing: a blank line without number,
    /// address or layout.
    pub fn new() -> (r: Line)
        ensures
            r@ == LineView::empty(),
    {
        let r = Line {
            label: None,
            operation: source_op::Neh,
            args: Vec::new(),
            comment: String::new(),
            line_no: 0,
            mem_loc: 0,
            format: format::Unassigned,
            obj_code: Vec::new(),
        };
        assert(r@.args =~= Seq::empty());
        r
    }

    /// The statement with another label.
    pub fn label(self, l: Option<String>) -> (r: Line)
        ensures
            r == (Line { label: l, ..self }),
    {
        let mut r = self;
        r.label = l;
        r
    }

    /// The statement with another operation.
    pub fn operation(self, op: source_op) -> (r: Line)
        ensures
            r == (Line { operation: op, ..self }),
    {
        let mut r = self;
        r.operation = op;
        r
    }

    /// The statement with other operands.
    pub fn args(self, a: Vec<arg_struct>) -> (r: Line)
        ensures
            r == (Line { args: a, ..self }),
    {
        let mut r = self;
        r.args = a;
        r
    }

    /// The statement with another line number.
    pub fn line_no(self, l: u32) -> (r: Line)
        ensures
            r == (Line { line_no: l, ..self }),
    {
        let mut r = self;
        r.line_no = l;
        r
    }

    /// The statement at another address.
    pub fn mem_loc(self, m: u32) -> (r: Line)
        ensures
            r == (Line { mem_loc: m, ..self }),
    {
        let mut r = self;
        r.mem_loc = m;
        r
    }

    /// The statement with another comment.
    pub fn comment(self, c: &str) -> (r: Line)
        ensures
            r@ == (LineView { comment: c@, ..self@ }),
    {
        let mut r = self;
        r.comment = c.to_owned();
        r
    }

    /// The statement with another layout.
    pub fn format(self, f: format) -> (r: Line)
        ensures
            r == (Line { format: f, ..self }),
    {
        let mut r = self;
        r.format = f;
        r
    }
}

impl Clone for Line {
    fn clone(&self) -> (r: Line)
        ensures
            r@ == self@,
    {
        let label = match &self.label {
            Some(s) => Some(s.clone()),
            None => None,
        };
        Line {
            label,
            operation: self.operation,
            args: clone_operands(&self.args),
            comment: self.comment.clone(),
            line_no: self.line_no,
            mem_loc: self.mem_loc,
            format: self.format,
            obj_code: self.obj_code.clone(),
        }
    }
}

} // verus!
