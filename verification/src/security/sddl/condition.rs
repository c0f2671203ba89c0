//! Conditional expressions and their bytecode.
//!
//! The bytecode is the mark `artx`, then one token for each value and each operator, operands
//! before operators, and zeros up to a multiple of four bytes.

use vstd::prelude::*;
use vstd::slice::slice_subrange;
use vstd::utf8::{decode_utf8, valid_utf8};
use crate::bytes::{law_le32_reads_back, law_le64_reads_back, le32, le32_at, le64, le64_at, put_le32, put_le64, put_slice, rd_u32, rd_u64};
use crate::security::sid::{encode_sid, law_sid_round_trip, sid_bytes, sid_of, Sid, SidView};
use crate::utf16::{law_utf8_through_16, text16, utf16le, utf8_from_16, utf8_of16};

verus! {

/// How deep operators may be nested.
pub const MAX_HEIGHT: usize = 256;

/// Where an attribute is looked up.
#[derive(Clone, Copy, Debug, PartialEq, Eq, Structural)]
pub enum Source {
    Local,
    User,
    Resource,
    Device,
}

/// An operator between two operands.
#[derive(Clone, Copy, Debug, PartialEq, Eq, Structural)]
pub enum CompareOp {
    Eq,
    Ne,
    Lt,
    Le,
    Gt,
    Ge,
    Contains,
    AnyOf,
    NotContains,
    NotAnyOf,
}

/// An operator on group memberships.
#[derive(Clone, Copy, Debug, PartialEq, Eq, Structural)]
pub enum MemberOp {
    MemberOf,
    DeviceMemberOf,
    MemberOfAny,
    DeviceMemberOfAny,
    NotMemberOf,
    NotDeviceMemberOf,
    NotMemberOfAny,
    NotDeviceMemberOfAny,
}

/// A constant. Text is UTF-8.
#[derive(Debug, PartialEq, Eq)]
pub enum Literal {
    Int(i64),
    Str(Vec<u8>),
    Octet(Vec<u8>),
    Sid(Sid),
}

/// What an operator is applied to.
#[derive(Debug, PartialEq, Eq)]
pub enum Operand {
    Attr(Source, Vec<u8>),
    Value(Literal),
    Composite(Vec<Literal>),
}

/// A conditional expression.
#[derive(Debug, PartialEq, Eq)]
#[allow(inconsistent_fields)]
pub enum Condition {
    Compare { op: CompareOp, lhs: Operand, rhs: Operand },
    Member { op: MemberOp, operand: Operand },
    Exists(Operand),
    NotExists(Operand),
    And(Box<Condition>, Box<Condition>),
    Or(Box<Condition>, Box<Condition>),
    Not(Box<Condition>),
}

/// What a constant says.
#[verifier::ext_equal]
pub enum LiteralView {
    Int(i64),
    Str(Seq<u8>),
    Octet(Seq<u8>),
    Sid(SidView),
}

/// What an operand says.
#[verifier::ext_equal]
pub enum OperandView {
    Attr(Source, Seq<u8>),
    Value(LiteralView),
    Composite(Seq<LiteralView>),
}

/// What an expression says.
#[verifier::ext_equal]
#[allow(inconsistent_fields)]
pub enum ConditionView {
    Compare { op: CompareOp, lhs: OperandView, rhs: OperandView },
    Member { op: MemberOp, operand: OperandView },
    Exists(OperandView),
    NotExists(OperandView),
    And(Box<ConditionView>, Box<ConditionView>),
    Or(Box<ConditionView>, Box<ConditionView>),
    Not(Box<ConditionView>),
}

impl View for Literal {
    type V = LiteralView;

    open spec fn view(&self) -> LiteralView {
        match *self {
            Literal::Int(v) => LiteralView::Int(v),
            Literal::Str(s) => LiteralView::Str(s@),
            Literal::Octet(b) => LiteralView::Octet(b@),
            Literal::Sid(sid) => LiteralView::Sid(sid@),
        }
    }
}

impl View for Operand {
    type V = OperandView;

    open spec fn view(&self) -> OperandView {
        match *self {
            Operand::Attr(source, name) => OperandView::Attr(source, name@),
            Operand::Value(l) => OperandView::Value(l@),
            Operand::Composite(items) => OperandView::Composite(literals(items@)),
        }
    }
}

/// What constants say.
pub open spec fn literals(items: Seq<Literal>) -> Seq<LiteralView> {
    Seq::new(items.len(), |i: int| items[i]@)
}

/// What an expression says.
pub open spec fn condition_view(c: Condition) -> ConditionView
    decreases c,
{
    match c {
        Condition::Compare { op, lhs, rhs } => ConditionView::Compare { op, lhs: lhs@, rhs: rhs@ },
        Condition::Member { op, operand } => ConditionView::Member { op, operand: operand@ },
        Condition::Exists(o) => ConditionView::Exists(o@),
        Condition::NotExists(o) => ConditionView::NotExists(o@),
        Condition::And(l, r) => ConditionView::And(Box::new(condition_view(*l)), Box::new(condition_view(*r))),
        Condition::Or(l, r) => ConditionView::Or(Box::new(condition_view(*l)), Box::new(condition_view(*r))),
        Condition::Not(x) => ConditionView::Not(Box::new(condition_view(*x))),
    }
}

impl View for Condition {
    type V = ConditionView;

    open spec fn view(&self) -> ConditionView {
        condition_view(*self)
    }
}

impl Literal {
    /// A SID in it fits the binary layout.
    pub open spec fn wf(&self) -> bool {
        *self matches Literal::Sid(sid) ==> sid.wf()
    }
}

/// Every SID among the constants fits the binary layout.
pub open spec fn literals_wf(items: Seq<Literal>) -> bool {
    forall|i: int| 0 <= i < items.len() ==> (#[trigger] items[i]).wf()
}

impl Operand {
    /// Every SID in it fits the binary layout.
    pub open spec fn wf(&self) -> bool {
        match *self {
            Operand::Attr(_, _) => true,
            Operand::Value(l) => l.wf(),
            Operand::Composite(items) => literals_wf(items@),
        }
    }
}

/// Every SID in an expression fits the binary layout.
pub open spec fn condition_wf(c: Condition) -> bool
    decreases c,
{
    match c {
        Condition::Compare { op, lhs, rhs } => lhs.wf() && rhs.wf(),
        Condition::Member { op, operand } => operand.wf(),
        Condition::Exists(o) => o.wf(),
        Condition::NotExists(o) => o.wf(),
        Condition::And(l, r) => condition_wf(*l) && condition_wf(*r),
        Condition::Or(l, r) => condition_wf(*l) && condition_wf(*r),
        Condition::Not(x) => condition_wf(*x),
    }
}

/// How deep the operators of an expression are nested.
pub open spec fn height(c: ConditionView) -> nat
    decreases c,
{
    match c {
        ConditionView::And(l, r) => if height(*l) >= height(*r) {
            height(*l) + 1
        } else {
            height(*r) + 1
        },
        ConditionView::Or(l, r) => if height(*l) >= height(*r) {
            height(*l) + 1
        } else {
            height(*r) + 1
        },
        ConditionView::Not(x) => height(*x) + 1,
        _ => 1,
    }
}

/// The bits of a signed number in two's complement.
pub open spec fn bits_of(v: i64) -> u64 {
    if v >= 0 {
        v as u64
    } else {
        (v + 0x1_0000_0000_0000_0000) as u64
    }
}

/// The signed number whose bits in two's complement these are.
pub open spec fn signed(u: u64) -> i64 {
    if u <= i64::MAX {
        u as i64
    } else {
        (u - 0x1_0000_0000_0000_0000) as i64
    }
}

pub fn to_bits(v: i64) -> (u: u64)
    ensures
        u == bits_of(v),
{
    if v >= 0 {
        v as u64
    } else {
        u64::MAX - (-(v + 1)) as u64
    }
}

pub fn from_bits(u: u64) -> (v: i64)
    ensures
        v == signed(u),
{
    if u <= i64::MAX as u64 {
        u as i64
    } else {
        -((u64::MAX - u) as i64) - 1
    }
}

pub open spec fn compare_code(op: CompareOp) -> u8 {
    match op {
        CompareOp::Eq => 0x80,
        CompareOp::Ne => 0x81,
        CompareOp::Lt => 0x82,
        CompareOp::Le => 0x83,
        CompareOp::Gt => 0x84,
        CompareOp::Ge => 0x85,
        CompareOp::Contains => 0x86,
        CompareOp::AnyOf => 0x88,
        CompareOp::NotContains => 0x8e,
        CompareOp::NotAnyOf => 0x8f,
    }
}

/// The operator of a token, if it compares.
pub open spec fn compare_of(b: u8) -> Option<CompareOp> {
    if b == 0x80 {
        Some(CompareOp::Eq)
    } else if b == 0x81 {
        Some(CompareOp::Ne)
    } else if b == 0x82 {
        Some(CompareOp::Lt)
    } else if b == 0x83 {
        Some(CompareOp::Le)
    } else if b == 0x84 {
        Some(CompareOp::Gt)
    } else if b == 0x85 {
        Some(CompareOp::Ge)
    } else if b == 0x86 {
        Some(CompareOp::Contains)
    } else if b == 0x88 {
        Some(CompareOp::AnyOf)
    } else if b == 0x8e {
        Some(CompareOp::NotContains)
    } else if b == 0x8f {
        Some(CompareOp::NotAnyOf)
    } else {
        None
    }
}

pub open spec fn member_code(op: MemberOp) -> u8 {
    match op {
        MemberOp::MemberOf => 0x89,
        MemberOp::DeviceMemberOf => 0x8a,
        MemberOp::MemberOfAny => 0x8b,
        MemberOp::DeviceMemberOfAny => 0x8c,
        MemberOp::NotMemberOf => 0x90,
        MemberOp::NotDeviceMemberOf => 0x91,
        MemberOp::NotMemberOfAny => 0x92,
        MemberOp::NotDeviceMemberOfAny => 0x93,
    }
}

/// The operator of a token, if it tests membership.
pub open spec fn member_of(b: u8) -> Option<MemberOp> {
    if b == 0x89 {
        Some(MemberOp::MemberOf)
    } else if b == 0x8a {
        Some(MemberOp::DeviceMemberOf)
    } else if b == 0x8b {
        Some(MemberOp::MemberOfAny)
    } else if b == 0x8c {
        Some(MemberOp::DeviceMemberOfAny)
    } else if b == 0x90 {
        Some(MemberOp::NotMemberOf)
    } else if b == 0x91 {
        Some(MemberOp::NotDeviceMemberOf)
    } else if b == 0x92 {
        Some(MemberOp::NotMemberOfAny)
    } else if b == 0x93 {
        Some(MemberOp::NotDeviceMemberOfAny)
    } else {
        None
    }
}

pub open spec fn source_code(source: Source) -> u8 {
    match source {
        Source::Local => 0xf8,
        Source::User => 0xf9,
        Source::Resource => 0xfa,
        Source::Device => 0xfb,
    }
}

fn code_of_compare(op: CompareOp) -> (b: u8)
    ensures
        b == compare_code(op),
{
    match op {
        CompareOp::Eq => 0x80,
        CompareOp::Ne => 0x81,
        CompareOp::Lt => 0x82,
        CompareOp::Le => 0x83,
        CompareOp::Gt => 0x84,
        CompareOp::Ge => 0x85,
        CompareOp::Contains => 0x86,
        CompareOp::AnyOf => 0x88,
        CompareOp::NotContains => 0x8e,
        CompareOp::NotAnyOf => 0x8f,
    }
}

fn read_compare(b: u8) -> (r: Option<CompareOp>)
    ensures
        r == compare_of(b),
{
    match b {
        0x80 => Some(CompareOp::Eq),
        0x81 => Some(CompareOp::Ne),
        0x82 => Some(CompareOp::Lt),
        0x83 => Some(CompareOp::Le),
        0x84 => Some(CompareOp::Gt),
        0x85 => Some(CompareOp::Ge),
        0x86 => Some(CompareOp::Contains),
        0x88 => Some(CompareOp::AnyOf),
        0x8e => Some(CompareOp::NotContains),
        0x8f => Some(CompareOp::NotAnyOf),
        _ => None,
    }
}

fn code_of_member(op: MemberOp) -> (b: u8)
    ensures
        b == member_code(op),
{
    match op {
        MemberOp::MemberOf => 0x89,
        MemberOp::DeviceMemberOf => 0x8a,
        MemberOp::MemberOfAny => 0x8b,
        MemberOp::DeviceMemberOfAny => 0x8c,
        MemberOp::NotMemberOf => 0x90,
        MemberOp::NotDeviceMemberOf => 0x91,
        MemberOp::NotMemberOfAny => 0x92,
        MemberOp::NotDeviceMemberOfAny => 0x93,
    }
}

fn read_member(b: u8) -> (r: Option<MemberOp>)
    ensures
        r == member_of(b),
{
    match b {
        0x89 => Some(MemberOp::MemberOf),
        0x8a => Some(MemberOp::DeviceMemberOf),
        0x8b => Some(MemberOp::MemberOfAny),
        0x8c => Some(MemberOp::DeviceMemberOfAny),
        0x90 => Some(MemberOp::NotMemberOf),
        0x91 => Some(MemberOp::NotDeviceMemberOf),
        0x92 => Some(MemberOp::NotMemberOfAny),
        0x93 => Some(MemberOp::NotDeviceMemberOfAny),
        _ => None,
    }
}

/// A token with a length and that many bytes.
pub open spec fn sized(tag: u8, body: Seq<u8>) -> Seq<u8> {
    seq![tag] + le32(body.len() as u32) + body
}

/// The bytes of a constant's token.
pub open spec fn literal_code(l: LiteralView) -> Seq<u8> {
    match l {
        LiteralView::Int(v) => seq![0x04u8] + le64(bits_of(v)) + seq![
            if v < 0 {
                2u8
            } else {
                3u8
            },
            2u8,
        ],
        LiteralView::Str(s) => sized(0x10, text16(decode_utf8(s))),
        LiteralView::Octet(b) => sized(0x18, b),
        LiteralView::Sid(v) => sized(0x51, sid_bytes(v)),
    }
}

/// A constant has a token.
pub open spec fn literal_encodable(l: LiteralView) -> bool {
    match l {
        LiteralView::Int(v) => true,
        LiteralView::Str(s) => text_encodable(s),
        LiteralView::Octet(b) => b.len() <= u32::MAX,
        LiteralView::Sid(v) => v.wf(),
    }
}

/// Text that a token can hold.
pub open spec fn text_encodable(s: Seq<u8>) -> bool {
    valid_utf8(s) && text16(decode_utf8(s)).len() <= u32::MAX
}

/// The tokens of constants, one after the other.
pub open spec fn literals_code(items: Seq<LiteralView>) -> Seq<u8>
    decreases items.len(),
{
    if items.len() == 0 {
        Seq::empty()
    } else {
        literals_code(items.drop_last()) + literal_code(items.last())
    }
}

/// The token of an operand.
pub open spec fn operand_code(o: OperandView) -> Seq<u8> {
    match o {
        OperandView::Attr(source, name) => sized(source_code(source), text16(decode_utf8(name))),
        OperandView::Value(l) => literal_code(l),
        OperandView::Composite(items) => sized(0x50, literals_code(items)),
    }
}

/// An operand has a token.
pub open spec fn operand_encodable(o: OperandView) -> bool {
    match o {
        OperandView::Attr(source, name) => text_encodable(name),
        OperandView::Value(l) => literal_encodable(l),
        OperandView::Composite(items) => (forall|i: int|
            0 <= i < items.len() ==> literal_encodable(#[trigger] items[i])) && literals_code(items).len() <= u32::MAX,
    }
}

/// The tokens of an expression.
pub open spec fn code(c: ConditionView) -> Seq<u8>
    decreases c,
{
    match c {
        ConditionView::Compare { op, lhs, rhs } => operand_code(lhs) + operand_code(rhs) + seq![compare_code(op)],
        ConditionView::Member { op, operand } => operand_code(operand) + seq![member_code(op)],
        ConditionView::Exists(o) => operand_code(o) + seq![0x87u8],
        ConditionView::NotExists(o) => operand_code(o) + seq![0x8du8],
        ConditionView::And(l, r) => code(*l) + code(*r) + seq![0xa0u8],
        ConditionView::Or(l, r) => code(*l) + code(*r) + seq![0xa1u8],
        ConditionView::Not(x) => code(*x) + seq![0xa2u8],
    }
}

/// An expression has bytecode.
pub open spec fn encodable(c: ConditionView) -> bool
    decreases c,
{
    match c {
        ConditionView::Compare { op, lhs, rhs } => operand_encodable(lhs) && operand_encodable(rhs),
        ConditionView::Member { op, operand } => operand_encodable(operand),
        ConditionView::Exists(o) => operand_encodable(o),
        ConditionView::NotExists(o) => operand_encodable(o),
        ConditionView::And(l, r) => encodable(*l) && encodable(*r),
        ConditionView::Or(l, r) => encodable(*l) && encodable(*r),
        ConditionView::Not(x) => encodable(*x),
    }
}

/// The mark at the start of bytecode.
pub open spec fn mark() -> Seq<u8> {
    seq![0x61u8, 0x72u8, 0x74u8, 0x78u8]
}

/// How many zeros fill up to a multiple of four.
pub open spec fn fill(n: nat) -> nat {
    ((4 - n % 4) % 4) as nat
}

/// Bytes filled up with zeros to a multiple of four.
pub open spec fn filled(s: Seq<u8>) -> Seq<u8> {
    s + Seq::new(fill(s.len()), |i: int| 0u8)
}

/// The bytecode of an expression.
pub open spec fn artx(c: ConditionView) -> Seq<u8> {
    filled(mark() + code(c))
}

/// Fills up with zeros to a multiple of four.
pub fn put_fill(out: &mut Vec<u8>)
    ensures
        final(out)@ == filled(old(out)@),
{
    let n: usize = (4 - out.len() % 4) % 4;
    let mut i: usize = 0;
    let ghost before = out@;
    assert(before + Seq::new(0, |k: int| 0u8) =~= before);
    while i < n
        invariant
            i <= n,
            out@ == before + Seq::new(i as nat, |k: int| 0u8),
        decreases n - i,
    {
        out.push(0);
        i = i + 1;
        assert(out@ =~= before + Seq::new(i as nat, |k: int| 0u8));
    }
}

fn put_sized(out: &mut Vec<u8>, tag: u8, body: &[u8]) -> (ok: bool)
    ensures
        ok == (body@.len() <= u32::MAX),
        ok ==> final(out)@ == old(out)@ + sized(tag, body@),
{
    if body.len() > u32::MAX as usize {
        return false;
    }
    out.push(tag);
    put_le32(out, body.len() as u32);
    put_slice(out, body);
    assert(out@ =~= old(out)@ + sized(tag, body@));
    true
}

fn put_text(out: &mut Vec<u8>, tag: u8, s: &[u8]) -> (ok: bool)
    ensures
        ok == text_encodable(s@),
        ok ==> final(out)@ == old(out)@ + sized(tag, text16(decode_utf8(s@))),
{
    match utf16le(s) {
        Some(body) => put_sized(out, tag, body.as_slice()),
        None => false,
    }
}

fn put_literal(out: &mut Vec<u8>, l: &Literal) -> (ok: bool)
    ensures
        ok == literal_encodable(l@),
        ok ==> final(out)@ == old(out)@ + literal_code(l@),
{
    match l {
        Literal::Int(v) => {
            out.push(0x04);
            put_le64(out, to_bits(*v));
            out.push(if *v < 0 {
                2
            } else {
                3
            });
            out.push(2);
            assert(out@ =~= old(out)@ + literal_code(l@));
            true
        },
        Literal::Str(s) => put_text(out, 0x10, s.as_slice()),
        Literal::Octet(b) => put_sized(out, 0x18, b.as_slice()),
        Literal::Sid(sid) => {
            if !sid.is_wf() {
                return false;
            }
            let body: Vec<u8> = encode_sid(sid.authority, sid.sub_authorities.as_slice());
            put_sized(out, 0x51, body.as_slice())
        },
    }
}

fn put_operand(out: &mut Vec<u8>, o: &Operand) -> (ok: bool)
    ensures
        ok == operand_encodable(o@),
        ok ==> final(out)@ == old(out)@ + operand_code(o@),
{
    match o {
        Operand::Attr(source, name) => {
            let tag: u8 = match source {
                Source::Local => 0xf8,
                Source::User => 0xf9,
                Source::Resource => 0xfa,
                Source::Device => 0xfb,
            };
            put_text(out, tag, name.as_slice())
        },
        Operand::Value(l) => put_literal(out, l),
        Operand::Composite(items) => {
            let mut body: Vec<u8> = Vec::new();
            let mut i: usize = 0;
            let ghost all = literals(items@);
            assert(all.take(0) =~= Seq::<LiteralView>::empty());
            while i < items.len()
                invariant
                    i <= items@.len(),
                    all == literals(items@),
                    o@ == OperandView::Composite(all),
                    body@ == literals_code(all.take(i as int)),
                    forall|k: int| 0 <= k < i ==> literal_encodable(#[trigger] all[k]),
                decreases items@.len() - i,
            {
                assert(all[i as int] == items@[i as int]@);
                if !put_literal(&mut body, &items[i]) {
                    return false;
                }
                assert(all.take(i + 1).drop_last() =~= all.take(i as int));
                i = i + 1;
            }
            assert(all.take(i as int) =~= all);
            put_sized(out, 0x50, body.as_slice())
        },
    }
}

fn put_condition(out: &mut Vec<u8>, c: &Condition) -> (ok: bool)
    ensures
        ok == encodable(c@),
        ok ==> final(out)@ == old(out)@ + code(c@),
    decreases c,
{
    match c {
        Condition::Compare { op, lhs, rhs } => {
            if !put_operand(out, lhs) || !put_operand(out, rhs) {
                return false;
            }
            out.push(code_of_compare(*op));
        },
        Condition::Member { op, operand } => {
            if !put_operand(out, operand) {
                return false;
            }
            out.push(code_of_member(*op));
        },
        Condition::Exists(o) => {
            if !put_operand(out, o) {
                return false;
            }
            out.push(0x87);
        },
        Condition::NotExists(o) => {
            if !put_operand(out, o) {
                return false;
            }
            out.push(0x8d);
        },
        Condition::And(l, r) => {
            if !put_condition(out, l) || !put_condition(out, r) {
                return false;
            }
            out.push(0xa0);
        },
        Condition::Or(l, r) => {
            if !put_condition(out, l) || !put_condition(out, r) {
                return false;
            }
            out.push(0xa1);
        },
        Condition::Not(x) => {
            if !put_condition(out, x) {
                return false;
            }
            out.push(0xa2);
        },
    }
    assert(out@ =~= old(out)@ + code(c@));
    true
}

impl Condition {
    /// Both expressions hold.
    pub fn and(self, other: Condition) -> (c: Condition)
        ensures
            c == Condition::And(Box::new(self), Box::new(other)),
            c@ == ConditionView::And(Box::new(self@), Box::new(other@)),
    {
        Condition::And(Box::new(self), Box::new(other))
    }

    /// Either expression holds.
    pub fn or(self, other: Condition) -> (c: Condition)
        ensures
            c == Condition::Or(Box::new(self), Box::new(other)),
            c@ == ConditionView::Or(Box::new(self@), Box::new(other@)),
    {
        Condition::Or(Box::new(self), Box::new(other))
    }

    /// The bytecode; nothing if text is not UTF-8 or something is too long for its length field.
    pub fn encode(&self) -> (r: Option<Vec<u8>>)
        ensures
            match r {
                Some(out) => encodable(self@) && out@ == artx(self@),
                None => !encodable(self@),
            },
    {
        let mut out: Vec<u8> = Vec::new();
        out.push(0x61);
        out.push(0x72);
        out.push(0x74);
        out.push(0x78);
        assert(out@ =~= mark());
        if !put_condition(&mut out, self) {
            return None;
        }
        put_fill(&mut out);
        Some(out)
    }

    /// Whether the operators are nested at most `most` deep.
    pub fn within(&self, most: usize) -> (r: bool)
        ensures
            r == (height(self@) <= most),
        decreases self,
    {
        if most == 0 {
            proof {
                lemma_height(self@);
            }
            return false;
        }
        match self {
            Condition::And(l, r) => l.within(most - 1) && r.within(most - 1),
            Condition::Or(l, r) => l.within(most - 1) && r.within(most - 1),
            Condition::Not(x) => x.within(most - 1),
            _ => true,
        }
    }
}

proof fn lemma_height(c: ConditionView)
    ensures
        height(c) >= 1,
{
}

/// What lies on the stack while bytecode is read.
#[verifier::ext_equal]
pub enum ItemView {
    Value(OperandView),
    Test(ConditionView),
}

/// The body of a token with a length: where it starts is known, where it ends is returned.
pub open spec fn body_end(s: Seq<u8>, p: int) -> Option<int> {
    if p + 5 > s.len() || p + 5 + le32_at(s, p + 1) > s.len() {
        None
    } else {
        Some(p + 5 + le32_at(s, p + 1))
    }
}

/// The constant whose token starts at `p`, and where it ends.
pub open spec fn literal_at(s: Seq<u8>, p: int) -> Option<(LiteralView, int)> {
    if p >= s.len() {
        None
    } else if 0x01 <= s[p] <= 0x04 {
        if p + 11 > s.len() || !(1 <= s[p + 9] <= 3) || !(1 <= s[p + 10] <= 3) {
            None
        } else {
            Some((LiteralView::Int(signed(le64_at(s, p + 1))), p + 11))
        }
    } else {
        match body_end(s, p) {
            None => None,
            Some(q) => {
                let body = s.subrange(p + 5, q);
                if s[p] == 0x10 {
                    match utf8_of16(body) {
                        Some(t) => Some((LiteralView::Str(t), q)),
                        None => None,
                    }
                } else if s[p] == 0x18 {
                    Some((LiteralView::Octet(body), q))
                } else if s[p] == 0x51 {
                    match sid_of(body) {
                        Some(v) => Some((LiteralView::Sid(v), q)),
                        None => None,
                    }
                } else {
                    None
                }
            },
        }
    }
}

/// The constants whose tokens lie between `p` and `end`, behind some.
pub open spec fn literals_from(s: Seq<u8>, p: int, end: int, acc: Seq<LiteralView>) -> Option<Seq<LiteralView>>
    decreases end - p,
{
    if p >= end {
        Some(acc)
    } else {
        match literal_at(s, p) {
            Some((l, q)) => if p < q <= end {
                literals_from(s, q, end, acc.push(l))
            } else {
                None
            },
            None => None,
        }
    }
}

/// The operand whose token starts at `p`, and where it ends.
pub open spec fn operand_at(s: Seq<u8>, p: int) -> Option<(OperandView, int)> {
    if p >= s.len() {
        None
    } else if s[p] == 0x50 {
        match body_end(s, p) {
            None => None,
            Some(q) => match literals_from(s, p + 5, q, Seq::empty()) {
                Some(items) => Some((OperandView::Composite(items), q)),
                None => None,
            },
        }
    } else if 0xf8 <= s[p] <= 0xfb {
        match body_end(s, p) {
            None => None,
            Some(q) => match utf8_of16(s.subrange(p + 5, q)) {
                Some(name) => Some((OperandView::Attr(source_of(s[p]), name), q)),
                None => None,
            },
        }
    } else {
        match literal_at(s, p) {
            Some((l, q)) => Some((OperandView::Value(l), q)),
            None => None,
        }
    }
}

pub open spec fn source_of(b: u8) -> Source {
    if b == 0xf8 {
        Source::Local
    } else if b == 0xf9 {
        Source::User
    } else if b == 0xfa {
        Source::Resource
    } else {
        Source::Device
    }
}

/// An operator applied to what lies on the stack.
pub open spec fn applied(st: Seq<ItemView>, b: u8) -> Option<Seq<ItemView>> {
    let n = st.len() as int;
    if compare_of(b) is Some {
        if n >= 2 && st[n - 2] is Value && st[n - 1] is Value {
            Some(
                st.take(n - 2).push(
                    ItemView::Test(
                        ConditionView::Compare {
                            op: compare_of(b)->Some_0,
                            lhs: st[n - 2]->Value_0,
                            rhs: st[n - 1]->Value_0,
                        },
                    ),
                ),
            )
        } else {
            None
        }
    } else if member_of(b) is Some || b == 0x87 || b == 0x8d {
        if n >= 1 && st[n - 1] is Value {
            let o = st[n - 1]->Value_0;
            let c = if b == 0x87 {
                ConditionView::Exists(o)
            } else if b == 0x8d {
                ConditionView::NotExists(o)
            } else {
                ConditionView::Member { op: member_of(b)->Some_0, operand: o }
            };
            Some(st.take(n - 1).push(ItemView::Test(c)))
        } else {
            None
        }
    } else if b == 0xa0 || b == 0xa1 {
        if n >= 2 && st[n - 2] is Test && st[n - 1] is Test {
            let l = Box::new(st[n - 2]->Test_0);
            let r = Box::new(st[n - 1]->Test_0);
            let c = if b == 0xa0 {
                ConditionView::And(l, r)
            } else {
                ConditionView::Or(l, r)
            };
            if height(c) <= MAX_HEIGHT {
                Some(st.take(n - 2).push(ItemView::Test(c)))
            } else {
                None
            }
        } else {
            None
        }
    } else if b == 0xa2 {
        if n >= 1 && st[n - 1] is Test {
            let c = ConditionView::Not(Box::new(st[n - 1]->Test_0));
            if height(c) <= MAX_HEIGHT {
                Some(st.take(n - 1).push(ItemView::Test(c)))
            } else {
                None
            }
        } else {
            None
        }
    } else {
        None
    }
}

/// A token stands for an operator.
pub open spec fn is_operator(b: u8) -> bool {
    0x80 <= b < 0xf8
}

/// What is left at the end of the tokens from `p` on, with a stack before them.
#[verifier::opaque]
pub open spec fn machine(s: Seq<u8>, p: int, st: Seq<ItemView>) -> Option<ConditionView>
    decreases s.len() - p,
{
    if p >= s.len() {
        if st.len() == 1 && st[0] is Test {
            Some(st[0]->Test_0)
        } else {
            None
        }
    } else if s[p] == 0 {
        machine(s, p + 1, st)
    } else if is_operator(s[p]) {
        match applied(st, s[p]) {
            Some(next) => machine(s, p + 1, next),
            None => None,
        }
    } else {
        match operand_at(s, p) {
            Some((o, q)) => if q > p {
                machine(s, q, st.push(ItemView::Value(o)))
            } else {
                None
            },
            None => None,
        }
    }
}

/// The expression that bytecode stands for.
pub open spec fn from_artx(s: Seq<u8>) -> Option<ConditionView> {
    if s.len() < 4 || s.take(4) != mark() {
        None
    } else {
        machine(s, 4, Seq::empty())
    }
}

/// What lies on the stack while bytecode is read; a test with its height.
enum Item {
    Value(Operand),
    Test(Condition, usize),
}

impl Item {
    spec fn at(self) -> ItemView {
        match self {
            Item::Value(o) => ItemView::Value(o@),
            Item::Test(c, h) => ItemView::Test(c@),
        }
    }

    spec fn wf(self) -> bool {
        match self {
            Item::Value(o) => o.wf(),
            Item::Test(c, h) => h == height(c@) && h <= MAX_HEIGHT && condition_wf(c),
        }
    }
}

spec fn items(st: Seq<Item>) -> Seq<ItemView> {
    Seq::new(st.len(), |i: int| st[i].at())
}

spec fn stack_wf(st: Seq<Item>) -> bool {
    forall|i: int| 0 <= i < st.len() ==> (#[trigger] st[i]).wf()
}

fn read_body_end(s: &[u8], p: usize) -> (r: Option<usize>)
    requires
        p < s@.len(),
    ensures
        match r {
            Some(q) => body_end(s@, p as int) == Some(q as int),
            None => body_end(s@, p as int) is None,
        },
{
    assert(s@.len() == s.len());
    if s.len() - p < 5 {
        return None;
    }
    let n: u32 = rd_u32(s, p + 1);
    if ((s.len() - p - 5) as u64) < n as u64 {
        return None;
    }
    Some(p + 5 + n as usize)
}

fn read_literal(s: &[u8], p: usize) -> (r: Option<(Literal, usize)>)
    ensures
        match r {
            Some((l, q)) => literal_at(s@, p as int) == Some((l@, q as int)) && p < q <= s@.len() && l.wf(),
            None => literal_at(s@, p as int) is None,
        },
{
    if p >= s.len() {
        return None;
    }
    assert(s@.len() == s.len());
    if s[p] >= 0x01 && s[p] <= 0x04 {
        if s.len() - p < 11 {
            return None;
        }
        if s[p + 9] < 1 || s[p + 9] > 3 || s[p + 10] < 1 || s[p + 10] > 3 {
            return None;
        }
        return Some((Literal::Int(from_bits(rd_u64(s, p + 1))), p + 11));
    }
    let q: usize = match read_body_end(s, p) {
        Some(q) => q,
        None => return None,
    };
    let body: &[u8] = slice_subrange(s, p + 5, q);
    if s[p] == 0x10 {
        match utf8_from_16(body) {
            Some(t) => Some((Literal::Str(t), q)),
            None => None,
        }
    } else if s[p] == 0x18 {
        Some((Literal::Octet(vstd::slice::slice_to_vec(body)), q))
    } else if s[p] == 0x51 {
        match Sid::parse(body) {
            Some(sid) => Some((Literal::Sid(sid), q)),
            None => None,
        }
    } else {
        None
    }
}

fn read_literals(s: &[u8], p: usize, end: usize) -> (r: Option<Vec<Literal>>)
    requires
        p <= end <= s@.len(),
    ensures
        match r {
            Some(v) => literals_from(s@, p as int, end as int, Seq::empty()) == Some(literals(v@)) && literals_wf(v@),
            None => literals_from(s@, p as int, end as int, Seq::empty()) is None,
        },
{
    let mut acc: Vec<Literal> = Vec::new();
    let mut at: usize = p;
    assert(literals(acc@) =~= Seq::<LiteralView>::empty());
    while at < end
        invariant
            at <= end <= s@.len(),
            literals_wf(acc@),
            literals_from(s@, p as int, end as int, Seq::empty()) == literals_from(
                s@,
                at as int,
                end as int,
                literals(acc@),
            ),
        decreases end - at,
    {
        match read_literal(s, at) {
            Some((l, q)) => {
                if q > end {
                    return None;
                }
                let ghost before = literals(acc@);
                let ghost one = l@;
                acc.push(l);
                assert(literals(acc@) =~= before.push(one));
                at = q;
            },
            None => return None,
        }
    }
    Some(acc)
}

fn read_operand(s: &[u8], p: usize) -> (r: Option<(Operand, usize)>)
    ensures
        match r {
            Some((o, q)) => operand_at(s@, p as int) == Some((o@, q as int)) && p < q <= s@.len() && o.wf(),
            None => operand_at(s@, p as int) is None,
        },
{
    if p >= s.len() {
        return None;
    }
    assert(s@.len() == s.len());
    if s[p] == 0x50 {
        match read_body_end(s, p) {
            None => None,
            Some(q) => match read_literals(s, p + 5, q) {
                Some(v) => Some((Operand::Composite(v), q)),
                None => None,
            },
        }
    } else if s[p] >= 0xf8 && s[p] <= 0xfb {
        match read_body_end(s, p) {
            None => None,
            Some(q) => match utf8_from_16(slice_subrange(s, p + 5, q)) {
                Some(name) => {
                    let source: Source = match s[p] {
                        0xf8 => Source::Local,
                        0xf9 => Source::User,
                        0xfa => Source::Resource,
                        _ => Source::Device,
                    };
                    Some((Operand::Attr(source, name), q))
                },
                None => None,
            },
        }
    } else {
        match read_literal(s, p) {
            Some((l, q)) => Some((Operand::Value(l), q)),
            None => None,
        }
    }
}

fn pop_value(st: &mut Vec<Item>) -> (r: Option<Operand>)
    requires
        stack_wf(old(st)@),
    ensures
        stack_wf(final(st)@),
        match r {
            Some(o) => old(st)@.len() >= 1 && items(old(st)@).last() == ItemView::Value(o@) && items(final(st)@) == items(
                old(st)@,
            ).drop_last() && o.wf(),
            None => old(st)@.len() == 0 || !(items(old(st)@).last() is Value),
        },
{
    match st.pop() {
        Some(Item::Value(o)) => {
            assert(old(st)@.last().wf());
            assert(items(st@) =~= items(old(st)@).drop_last());
            Some(o)
        },
        _ => None,
    }
}

fn pop_test(st: &mut Vec<Item>) -> (r: Option<(Condition, usize)>)
    requires
        stack_wf(old(st)@),
    ensures
        stack_wf(final(st)@),
        match r {
            Some((c, h)) => old(st)@.len() >= 1 && items(old(st)@).last() == ItemView::Test(c@) && items(final(st)@)
                == items(old(st)@).drop_last() && h == height(c@) && h <= MAX_HEIGHT && condition_wf(c),
            None => old(st)@.len() == 0 || !(items(old(st)@).last() is Test),
        },
{
    match st.pop() {
        Some(Item::Test(c, h)) => {
            assert(old(st)@.last().wf());
            assert(items(st@) =~= items(old(st)@).drop_last());
            Some((c, h))
        },
        _ => None,
    }
}

fn push_item(st: &mut Vec<Item>, item: Item)
    requires
        stack_wf(old(st)@),
        item.wf(),
    ensures
        stack_wf(final(st)@),
        items(final(st)@) == items(old(st)@).push(item.at()),
{
    st.push(item);
    assert(items(st@) =~= items(old(st)@).push(item.at()));
}

/// Applies an operator to what lies on the stack.
fn apply(st: &mut Vec<Item>, b: u8) -> (ok: bool)
    requires
        stack_wf(old(st)@),
    ensures
        stack_wf(final(st)@),
        ok == (applied(items(old(st)@), b) is Some),
        ok ==> applied(items(old(st)@), b) == Some(items(final(st)@)),
{
    let ghost before = items(st@);
    let ghost n = before.len() as int;
    if let Some(op) = read_compare(b) {
        let rhs: Operand = match pop_value(st) {
            Some(o) => o,
            None => return false,
        };
        let lhs: Operand = match pop_value(st) {
            Some(o) => o,
            None => return false,
        };
        assert(before.drop_last().drop_last() =~= before.take(n - 2));
        push_item(st, Item::Test(Condition::Compare { op, lhs, rhs }, 1));
        return true;
    }
    let member: Option<MemberOp> = read_member(b);
    if member.is_some() || b == 0x87 || b == 0x8d {
        let o: Operand = match pop_value(st) {
            Some(o) => o,
            None => return false,
        };
        assert(before.drop_last() =~= before.take(n - 1));
        let c: Condition = match member {
            Some(op) => Condition::Member { op, operand: o },
            None => if b == 0x87 {
                Condition::Exists(o)
            } else {
                Condition::NotExists(o)
            },
        };
        push_item(st, Item::Test(c, 1));
        return true;
    }
    if b == 0xa0 || b == 0xa1 {
        let (r, hr) = match pop_test(st) {
            Some(x) => x,
            None => return false,
        };
        let (l, hl) = match pop_test(st) {
            Some(x) => x,
            None => return false,
        };
        assert(before.drop_last().drop_last() =~= before.take(n - 2));
        let h: usize = if hl >= hr {
            hl + 1
        } else {
            hr + 1
        };
        let c: Condition = if b == 0xa0 {
            Condition::And(Box::new(l), Box::new(r))
        } else {
            Condition::Or(Box::new(l), Box::new(r))
        };
        assert(h == height(c@));
        if h > MAX_HEIGHT {
            return false;
        }
        push_item(st, Item::Test(c, h));
        return true;
    }
    if b == 0xa2 {
        let (x, hx) = match pop_test(st) {
            Some(x) => x,
            None => return false,
        };
        assert(before.drop_last() =~= before.take(n - 1));
        if hx >= MAX_HEIGHT {
            return false;
        }
        push_item(st, Item::Test(Condition::Not(Box::new(x)), hx + 1));
        return true;
    }
    false
}

/// Reads bytecode. Every SID that it holds has the one revision there is.
pub fn decode_artx(s: &[u8]) -> (r: Option<Condition>)
    ensures
        match r {
            Some(c) => from_artx(s@) == Some(c@) && condition_wf(c),
            None => from_artx(s@) is None,
        },
{
    if s.len() < 4 {
        return None;
    }
    if s[0] != 0x61 || s[1] != 0x72 || s[2] != 0x74 || s[3] != 0x78 {
        assert(s@.take(4)[0] == s@[0] && s@.take(4)[1] == s@[1] && s@.take(4)[2] == s@[2] && s@.take(4)[3] == s@[3]);
        return None;
    }
    assert(s@.take(4) =~= mark());
    let mut st: Vec<Item> = Vec::new();
    let mut p: usize = 4;
    assert(items(st@) =~= Seq::<ItemView>::empty());
    while p < s.len()
        invariant
            p <= s@.len(),
            s@.len() == s.len(),
            stack_wf(st@),
            from_artx(s@) == machine(s@, p as int, items(st@)),
        decreases s@.len() - p,
    {
        reveal(machine);
        let b: u8 = s[p];
        if b == 0 {
            p = p + 1;
        } else if b >= 0x80 && b < 0xf8 {
            if !apply(&mut st, b) {
                return None;
            }
            p = p + 1;
        } else {
            match read_operand(s, p) {
                Some((o, q)) => {
                    push_item(&mut st, Item::Value(o));
                    p = q;
                },
                None => return None,
            }
        }
    }
    reveal(machine);
    if st.len() != 1 {
        return None;
    }
    match pop_test(&mut st) {
        Some((c, h)) => Some(c),
        None => None,
    }
}

/// The same bytes stand at `p`.
pub open spec fn stands(s: Seq<u8>, p: int, t: Seq<u8>) -> bool {
    0 <= p && p + t.len() <= s.len() && s.subrange(p, p + t.len()) == t
}

proof fn lemma_stands_part(s: Seq<u8>, p: int, a: Seq<u8>, b: Seq<u8>)
    requires
        stands(s, p, a + b),
    ensures
        stands(s, p, a),
        stands(s, p + a.len(), b),
{
    let t = a + b;
    assert forall|i: int| 0 <= i < t.len() implies s[p + i] == t[i] by {
        assert(s.subrange(p, p + t.len())[i] == t[i]);
    }
    assert(s.subrange(p, p + a.len()) =~= a);
    let q = p + a.len();
    assert forall|i: int| 0 <= i < b.len() implies s.subrange(q, q + b.len())[i] == b[i] by {
        assert(t[a.len() + i] == b[i]);
        assert(s[p + (a.len() + i)] == t[a.len() + i]);
    }
    assert(s.subrange(q, q + b.len()) =~= b);
}

proof fn lemma_sized(s: Seq<u8>, p: int, tag: u8, body: Seq<u8>)
    requires
        stands(s, p, sized(tag, body)),
        body.len() <= u32::MAX,
    ensures
        s[p] == tag,
        body_end(s, p) == Some(p + 5 + body.len()),
        s.subrange(p + 5, p + 5 + body.len()) == body,
{
    lemma_stands_part(s, p, seq![tag] + le32(body.len() as u32), body);
    lemma_stands_part(s, p, seq![tag], le32(body.len() as u32));
    assert(s.subrange(p, p + 1)[0] == s[p]);
    law_le32_reads_back(s, p + 1, body.len() as u32);
}

proof fn lemma_bits(v: i64)
    ensures
        signed(bits_of(v)) == v,
{
}

proof fn lemma_literal(s: Seq<u8>, p: int, l: LiteralView)
    requires
        stands(s, p, literal_code(l)),
        literal_encodable(l),
    ensures
        literal_at(s, p) == Some((l, p + literal_code(l).len())),
        literal_code(l).len() > 0,
        s[p] < 0x80 && s[p] != 0x50 && s[p] != 0,
{
    match l {
        LiteralView::Int(v) => {
            let sign = seq![
                if v < 0 {
                    2u8
                } else {
                    3u8
                },
                2u8,
            ];
            lemma_stands_part(s, p, seq![0x04u8] + le64(bits_of(v)), sign);
            lemma_stands_part(s, p, seq![0x04u8], le64(bits_of(v)));
            assert(s.subrange(p, p + 1)[0] == s[p]);
            law_le64_reads_back(s, p + 1, bits_of(v));
            assert(s.subrange(p + 9, p + 11)[0] == s[p + 9]);
            assert(s.subrange(p + 9, p + 11)[1] == s[p + 10]);
            lemma_bits(v);
        },
        LiteralView::Str(t) => {
            lemma_sized(s, p, 0x10, text16(decode_utf8(t)));
            law_utf8_through_16(t);
        },
        LiteralView::Octet(b) => {
            lemma_sized(s, p, 0x18, b);
        },
        LiteralView::Sid(v) => {
            lemma_sized(s, p, 0x51, sid_bytes(v));
            law_sid_round_trip(Seq::empty(), v, Seq::empty());
            assert(Seq::<u8>::empty() + sid_bytes(v) + Seq::<u8>::empty() =~= sid_bytes(v));
        },
    }
}

/// Constants are read back behind some.
proof fn lemma_literals(s: Seq<u8>, p: int, items: Seq<LiteralView>, k: int)
    requires
        stands(s, p, literals_code(items)),
        0 <= k <= items.len(),
        forall|i: int| 0 <= i < items.len() ==> literal_encodable(#[trigger] items[i]),
    ensures
        literals_code(items.take(k)).len() <= literals_code(items).len(),
        literals_from(s, p, p + literals_code(items).len(), Seq::empty()) == literals_from(
            s,
            p + literals_code(items.take(k)).len(),
            p + literals_code(items).len(),
            items.take(k),
        ),
        stands(s, p, literals_code(items.take(k))),
    decreases k,
{
    lemma_codes_grow(items, k);
    let whole = literals_code(items);
    let head = literals_code(items.take(k));
    lemma_stands_part(s, p, head, whole.subrange(head.len() as int, whole.len() as int));
    if k == 0 {
        assert(items.take(0) =~= Seq::<LiteralView>::empty());
    } else {
        lemma_literals(s, p, items, k - 1);
        let before = items.take(k - 1);
        assert(items.take(k).drop_last() =~= before);
        assert(items.take(k) =~= before.push(items[k - 1]));
        lemma_stands_part(s, p, literals_code(before), literal_code(items[k - 1]));
        lemma_literal(s, p + literals_code(before).len(), items[k - 1]);
    }
}

/// The tokens of the first constants come first.
proof fn lemma_codes_grow(items: Seq<LiteralView>, k: int)
    requires
        0 <= k <= items.len(),
    ensures
        literals_code(items.take(k)).len() <= literals_code(items).len(),
        literals_code(items) == literals_code(items.take(k)) + literals_code(items).subrange(
            literals_code(items.take(k)).len() as int,
            literals_code(items).len() as int,
        ),
    decreases items.len(),
{
    if k == items.len() {
        assert(items.take(k) =~= items);
        assert(literals_code(items) =~= literals_code(items) + literals_code(items).subrange(
            literals_code(items).len() as int,
            literals_code(items).len() as int,
        ));
    } else {
        let front = items.drop_last();
        lemma_codes_grow(front, k);
        assert(front.take(k) =~= items.take(k));
        let a = literals_code(items.take(k));
        let b = literals_code(front);
        let whole = literals_code(items);
        assert(whole == b + literal_code(items.last()));
        assert(whole.subrange(0, a.len() as int) =~= b.subrange(0, a.len() as int));
        assert(b.subrange(0, a.len() as int) =~= a);
        assert(whole =~= a + whole.subrange(a.len() as int, whole.len() as int));
    }
}

#[verifier::spinoff_prover]
#[verifier::rlimit(60)]
proof fn lemma_operand(s: Seq<u8>, p: int, o: OperandView)
    requires
        stands(s, p, operand_code(o)),
        operand_encodable(o),
    ensures
        operand_at(s, p) == Some((o, p + operand_code(o).len())),
        operand_code(o).len() > 0,
        s[p] != 0,
        !is_operator(s[p]),
{
    match o {
        OperandView::Attr(source, name) => {
            lemma_sized(s, p, source_code(source), text16(decode_utf8(name)));
            law_utf8_through_16(name);
        },
        OperandView::Value(l) => {
            lemma_literal(s, p, l);
        },
        OperandView::Composite(items) => {
            let body = literals_code(items);
            lemma_sized(s, p, 0x50, body);
            lemma_literals(s, p + 5, items, items.len() as int);
            assert(items.take(items.len() as int) =~= items);
        },
    }
}

/// Reading an operand's token leaves it on the stack.
proof fn lemma_push(s: Seq<u8>, p: int, st: Seq<ItemView>, o: OperandView)
    requires
        stands(s, p, operand_code(o)),
        operand_encodable(o),
    ensures
        machine(s, p, st) == machine(s, p + operand_code(o).len(), st.push(ItemView::Value(o))),
{
    reveal(machine);
    lemma_operand(s, p, o);
}

/// Reading an operator's token applies it.
proof fn lemma_apply(s: Seq<u8>, p: int, st: Seq<ItemView>, b: u8, next: Seq<ItemView>)
    requires
        stands(s, p, seq![b]),
        is_operator(b),
        applied(st, b) == Some(next),
    ensures
        machine(s, p, st) == machine(s, p + 1, next),
{
    reveal(machine);
    assert(s.subrange(p, p + 1)[0] == s[p]);
}

proof fn lemma_one(s: Seq<u8>, p: int, st: Seq<ItemView>, o: OperandView, b: u8, c: ConditionView)
    requires
        stands(s, p, operand_code(o) + seq![b]),
        operand_encodable(o),
        is_operator(b),
        applied(st.push(ItemView::Value(o)), b) == Some(st.push(ItemView::Value(o)).take(st.len() as int).push(ItemView::Test(c))),
    ensures
        machine(s, p, st) == machine(s, p + operand_code(o).len() + 1, st.push(ItemView::Test(c))),
{
    lemma_stands_part(s, p, operand_code(o), seq![b]);
    lemma_push(s, p, st, o);
    let full = st.push(ItemView::Value(o));
    assert(full.take(st.len() as int) =~= st);
    lemma_apply(s, p + operand_code(o).len(), full, b, st.push(ItemView::Test(c)));
}

/// Reading the tokens of a test on two operands leaves it on the stack.
proof fn lemma_compare(s: Seq<u8>, p: int, st: Seq<ItemView>, op: CompareOp, lhs: OperandView, rhs: OperandView)
    requires
        stands(s, p, operand_code(lhs) + operand_code(rhs) + seq![compare_code(op)]),
        operand_encodable(lhs),
        operand_encodable(rhs),
    ensures
        machine(s, p, st) == machine(
            s,
            p + operand_code(lhs).len() + operand_code(rhs).len() + 1,
            st.push(ItemView::Test(ConditionView::Compare { op, lhs, rhs })),
        ),
{
    let a = operand_code(lhs);
    let b = operand_code(rhs);
    lemma_stands_part(s, p, a + b, seq![compare_code(op)]);
    lemma_stands_part(s, p, a, b);
    lemma_push(s, p, st, lhs);
    lemma_push(s, p + a.len(), st.push(ItemView::Value(lhs)), rhs);
    let full = st.push(ItemView::Value(lhs)).push(ItemView::Value(rhs));
    assert(full.take(full.len() - 2) =~= st);
    lemma_apply(
        s,
        p + a.len() + b.len(),
        full,
        compare_code(op),
        st.push(ItemView::Test(ConditionView::Compare { op, lhs, rhs })),
    );
}

/// Reading the tokens of an expression leaves it on the stack.
#[verifier::spinoff_prover]
proof fn lemma_machine(s: Seq<u8>, p: int, st: Seq<ItemView>, c: ConditionView)
    requires
        stands(s, p, code(c)),
        encodable(c),
        height(c) <= MAX_HEIGHT,
    ensures
        machine(s, p, st) == machine(s, p + code(c).len(), st.push(ItemView::Test(c))),
    decreases c, 1int,
{
    match c {
        ConditionView::Compare { op, lhs, rhs } => {
            lemma_compare(s, p, st, op, lhs, rhs);
        },
        ConditionView::Member { op, operand } => {
            lemma_one(s, p, st, operand, member_code(op), c);
        },
        ConditionView::Exists(o) => {
            lemma_one(s, p, st, o, 0x87, c);
        },
        ConditionView::NotExists(o) => {
            lemma_one(s, p, st, o, 0x8d, c);
        },
        ConditionView::And(l, r) => {
            lemma_two(s, p, st, *l, *r, 0xa0);
        },
        ConditionView::Or(l, r) => {
            lemma_two(s, p, st, *l, *r, 0xa1);
        },
        ConditionView::Not(x) => {
            let a = code(*x);
            lemma_stands_part(s, p, a, seq![0xa2u8]);
            lemma_machine(s, p, st, *x);
            let full = st.push(ItemView::Test(*x));
            assert(full.take(full.len() - 1) =~= st);
            lemma_apply(s, p + a.len(), full, 0xa2, st.push(ItemView::Test(c)));
        },
    }
}

/// The expression of two with an operator.
pub open spec fn joined(l: ConditionView, r: ConditionView, b: u8) -> ConditionView {
    if b == 0xa0 {
        ConditionView::And(Box::new(l), Box::new(r))
    } else {
        ConditionView::Or(Box::new(l), Box::new(r))
    }
}

proof fn lemma_two(s: Seq<u8>, p: int, st: Seq<ItemView>, l: ConditionView, r: ConditionView, b: u8)
    requires
        stands(s, p, code(l) + code(r) + seq![b]),
        b == 0xa0 || b == 0xa1,
        encodable(l),
        encodable(r),
        height(joined(l, r, b)) <= MAX_HEIGHT,
    ensures
        machine(s, p, st) == machine(
            s,
            p + code(l).len() + code(r).len() + 1,
            st.push(ItemView::Test(joined(l, r, b))),
        ),
    decreases joined(l, r, b), 0int,
{
    lemma_stands_part(s, p, code(l) + code(r), seq![b]);
    lemma_stands_part(s, p, code(l), code(r));
    lemma_machine(s, p, st, l);
    lemma_machine(s, p + code(l).len(), st.push(ItemView::Test(l)), r);
    let full = st.push(ItemView::Test(l)).push(ItemView::Test(r));
    assert(full.take(full.len() - 2) =~= st);
    lemma_apply(s, p + code(l).len() + code(r).len(), full, b, st.push(ItemView::Test(joined(l, r, b))));
}

/// Zeros are passed over.
proof fn lemma_zeros(s: Seq<u8>, p: int, st: Seq<ItemView>)
    requires
        0 <= p <= s.len(),
        forall|i: int| p <= i < s.len() ==> s[i] == 0,
    ensures
        machine(s, p, st) == machine(s, s.len() as int, st),
    decreases s.len() - p,
{
    reveal(machine);
    if p < s.len() {
        lemma_zeros(s, p + 1, st);
    }
}

/// An expression is read back from its bytecode, whatever zeros follow.
pub proof fn law_condition_survives_zeros(c: ConditionView, s: Seq<u8>)
    requires
        encodable(c),
        height(c) <= MAX_HEIGHT,
        s.len() >= artx(c).len(),
        s.take(artx(c).len() as int) == artx(c),
        forall|i: int| artx(c).len() <= i < s.len() ==> s[i] == 0,
    ensures
        from_artx(s) == Some(c),
{
    reveal(machine);
    let b = artx(c);
    assert forall|i: int| 0 <= i < b.len() implies s[i] == b[i] by {
        assert(s.take(b.len() as int)[i] == s[i]);
    }
    assert(s.take(4) =~= mark());
    assert(s.subrange(4, 4 + code(c).len() as int) =~= code(c));
    lemma_machine(s, 4, Seq::empty(), c);
    lemma_zeros(s, 4 + code(c).len() as int, Seq::empty().push(ItemView::Test(c)));
}

/// An expression is read back from its bytecode.
pub proof fn law_condition_reads_back(c: ConditionView)
    requires
        encodable(c),
        height(c) <= MAX_HEIGHT,
    ensures
        from_artx(artx(c)) == Some(c),
{
    assert(artx(c).take(artx(c).len() as int) =~= artx(c));
    law_condition_survives_zeros(c, artx(c));
}

} // verus!
