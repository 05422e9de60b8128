//! Equality of statements and their parts.
//!
//! `==` on operands and operations looks at the kind only: two operands are
//! equal if both are names, both are strings, both are integers or both are
//! expressions, whatever they hold. `==` on statements takes the operation by
//! its kind too and leaves the bytes out. The methods named `identical`
//! compare everything.

use crate::line::{
    arg, arg_struct, expr_struct, op_struct, operands_view, source_op, text_view, ArgView, Line,
    SourceOpView,
};
use crate::text::str_eq;
use vstd::prelude::*;
use vstd::std_specs::cmp::PartialEqSpecImpl;

verus! {

/// Whether two operand contents are of one kind.
pub open spec fn same_kind(a: ArgView, b: ArgView) -> bool {
    match (a, b) {
        (ArgView::Label(_), ArgView::Label(_)) => true,
        (ArgView::StrLit(_), ArgView::StrLit(_)) => true,
        (ArgView::IntLit(_), ArgView::IntLit(_)) => true,
        (ArgView::Expr(_), ArgView::Expr(_)) => true,
        _ => false,
    }
}

/// Whether two operations are of one kind.
pub open spec fn same_operation_kind(a: SourceOpView, b: SourceOpView) -> bool {
    match (a, b) {
        (SourceOpView::Directive(_), SourceOpView::Directive(_)) => true,
        (SourceOpView::Instruction(_), SourceOpView::Instruction(_)) => true,
        (SourceOpView::Neh, SourceOpView::Neh) => true,
        (SourceOpView::Error, SourceOpView::Error) => true,
        _ => false,
    }
}

impl PartialEq for arg {
    fn eq(&self, other: &arg) -> (r: bool) {
        match (self, other) {
            (arg::Label(_), arg::Label(_)) => true,
            (arg::StrLit(_), arg::StrLit(_)) => true,
            (arg::IntLit(_), arg::IntLit(_)) => true,
            (arg::Expr(_), arg::Expr(_)) => true,
            _ => false,
        }
    }
}

impl PartialEqSpecImpl for arg {
    open spec fn obeys_eq_spec() -> bool {
        true
    }

    open spec fn eq_spec(&self, other: &arg) -> bool {
        same_kind(self@, other@)
    }
}

impl PartialEq for source_op {
    fn eq(&self, other: &source_op) -> (r: bool) {
        match (self, other) {
            (source_op::Directive(_), source_op::Directive(_)) => true,
            (source_op::Instruction(_), source_op::Instruction(_)) => true,
            (source_op::Neh, source_op::Neh) => true,
            (source_op::Error, source_op::Error) => true,
            _ => false,
        }
    }
}

impl PartialEqSpecImpl for source_op {
    open spec fn obeys_eq_spec() -> bool {
        true
    }

    open spec fn eq_spec(&self, other: &source_op) -> bool {
        same_operation_kind(self@, other@)
    }
}

impl PartialEq for op_struct {
    fn eq(&self, other: &op_struct) -> (r: bool) {
        str_eq(self.name, other.name) && self.opcode == other.opcode && self.long == other.long
    }
}

impl PartialEqSpecImpl for op_struct {
    open spec fn obeys_eq_spec() -> bool {
        true
    }

    open spec fn eq_spec(&self, other: &op_struct) -> bool {
        self@ == other@
    }
}

impl PartialEq for arg_struct {
    fn eq(&self, other: &arg_struct) -> (r: bool) {
        self.val == other.val && self.modifier == other.modifier
    }
}

impl PartialEqSpecImpl for arg_struct {
    open spec fn obeys_eq_spec() -> bool {
        true
    }

    open spec fn eq_spec(&self, other: &arg_struct) -> bool {
        same_kind(self@.val, other@.val) && self.modifier == other.modifier
    }
}

impl PartialEq for expr_struct {
    fn eq(&self, other: &expr_struct) -> (r: bool) {
        self.lhs == other.lhs && self.rhs == other.rhs && self.op == other.op
    }
}

impl PartialEqSpecImpl for expr_struct {
    open spec fn obeys_eq_spec() -> bool {
        true
    }

    open spec fn eq_spec(&self, other: &expr_struct) -> bool {
        same_kind(self@.lhs, other@.lhs) && same_kind(self@.rhs, other@.rhs) && self.op
            == other.op
    }
}

/// Whether two operand lists are equal as `==` on operands has it.
pub open spec fn same_operands(a: Seq<arg_struct>, b: Seq<arg_struct>) -> bool {
    &&& a.len() == b.len()
    &&& forall|i: int|
        0 <= i < a.len() ==> same_kind((#[trigger] a[i])@.val, b[i]@.val) && a[i].modifier
            == b[i].modifier
}

fn operands_eq(a: &Vec<arg_struct>, b: &Vec<arg_struct>) -> (r: bool)
    ensures
        r == same_operands(a@, b@),
{
    if a.len() != b.len() {
        return false;
    }
    let mut i: usize = 0;
    while i < a.len()
        invariant
            i <= a.len(),
            a.len() == b.len(),
            forall|k: int|
                0 <= k < i ==> same_kind((#[trigger] a[k])@.val, b[k]@.val) && a[k].modifier
                    == b[k].modifier,
        decreases a.len() - i,
    {
        if !(a[i] == b[i]) {
            return false;
        }
        i = i + 1;
    }
    true
}

fn text_eq(a: &Option<String>, b: &Option<String>) -> (r: bool)
    ensures
        r == (text_view(*a) == text_view(*b)),
{
    match (a, b) {
        (Some(x), Some(y)) => str_eq(x.as_str(), y.as_str()),
        (None, None) => true,
        _ => false,
    }
}

impl PartialEq for Line {
    fn eq(&self, other: &Line) -> (r: bool) {
        self.operation == other.operation && operands_eq(&self.args, &other.args) && str_eq(
            self.comment.as_str(),
            other.comment.as_str(),
        ) && text_eq(&self.label, &other.label) && self.line_no == other.line_no && self.mem_loc
            == other.mem_loc && self.format == other.format
    }
}

impl PartialEqSpecImpl for Line {
    open spec fn obeys_eq_spec() -> bool {
        true
    }

    open spec fn eq_spec(&self, other: &Line) -> bool {
        &&& same_operation_kind(self.operation@, other.operation@)
        &&& same_operands(self.args@, other.args@)
        &&& self.comment@ == other.comment@
        &&& text_view(self.label) == text_view(other.label)
        &&& self.line_no == other.line_no
        &&& self.mem_loc == other.mem_loc
        &&& self.format == other.format
    }
}

impl arg {
    /// Whether two operand contents are the same in everything.
    pub fn identical(&self, other: &arg) -> (r: bool)
        ensures
            r == (self@ == other@),
        decreases self,
    {
        match (self, other) {
            (arg::Label(x), arg::Label(y)) => str_eq(x.as_str(), y.as_str()),
            (arg::StrLit(x), arg::StrLit(y)) => str_eq(x.as_str(), y.as_str()),
            (arg::IntLit(x), arg::IntLit(y)) => *x == *y,
            (arg::Expr(x), arg::Expr(y)) => x.lhs.identical(&y.lhs) && x.op == y.op
                && x.rhs.identical(&y.rhs),
            _ => false,
        }
    }
}

impl arg_struct {
    /// Whether two operands are the same in everything.
    pub fn identical(&self, other: &arg_struct) -> (r: bool)
        ensures
            r == (self@ == other@),
    {
        self.val.identical(&other.val) && self.reg_code == other.reg_code && self.modifier
            == other.modifier
    }
}

impl source_op {
    /// Whether two operations are the same in everything.
    pub fn identical(&self, other: &source_op) -> (r: bool)
        ensures
            r == (self@ == other@),
    {
        match (self, other) {
            (source_op::Directive(x), source_op::Directive(y)) => *x == *y,
            (source_op::Instruction(x), source_op::Instruction(y)) => *x == *y,
            (source_op::Neh, source_op::Neh) => true,
            (source_op::Error, source_op::Error) => true,
            _ => false,
        }
    }
}

fn operands_identical(a: &Vec<arg_struct>, b: &Vec<arg_struct>) -> (r: bool)
    ensures
        r == (operands_view(a@) == operands_view(b@)),
{
    if a.len() != b.len() {
        assert(operands_view(a@).len() != operands_view(b@).len());
        return false;
    }
    let mut i: usize = 0;
    while i < a.len()
        invariant
            i <= a.len(),
            a.len() == b.len(),
            forall|k: int| 0 <= k < i ==> (#[trigger] a[k])@ == b[k]@,
        decreases a.len() - i,
    {
        if !a[i].identical(&b[i]) {
            assert(operands_view(a@)[i as int] != operands_view(b@)[i as int]);
            return false;
        }
        i = i + 1;
    }
    assert(operands_view(a@) =~= operands_view(b@));
    true
}

fn bytes_identical(a: &Vec<u8>, b: &Vec<u8>) -> (r: bool)
    ensures
        r == (a@ == b@),
{
    if a.len() != b.len() {
        return false;
    }
    let mut i: usize = 0;
    while i < a.len()
        invariant
            i <= a.len(),
            a.len() == b.len(),
            forall|k: int| 0 <= k < i ==> a[k] == b[k],
        decreases a.len() - i,
    {
        if a[i] != b[i] {
            return false;
        }
        i = i + 1;
    }
    assert(a@ =~= b@);
    true
}

impl Line {
    /// Whether two statements are the same in everything, the operation and
    /// the bytes included.
    pub fn identical(&self, other: &Line) -> (r: bool)
        ensures
            r == (self@ == other@),
    {
        text_eq(&self.label, &other.label) && self.operation.identical(&other.operation)
            && operands_identical(&self.args, &other.args) && str_eq(
            self.comment.as_str(),
            other.comment.as_str(),
        ) && self.line_no == other.line_no && self.mem_loc == other.mem_loc && self.format
            == other.format && bytes_identical(&self.obj_code, &other.obj_code)
    }
}

} // verus!
