use vstd::prelude::*;
use crate::operator::Operator;
use crate::ty::{Type, TypeV};

verus! {

/// Instructions of the virtual machine.
#[derive(Debug, Clone, Copy, PartialEq, Eq, Structural)]
pub enum Opcode {
    LOADK,
    MOVE,
    CALL,
    RET,
    GETUPVAL,
    NEWCLASS,
    SETFIELD,
    GETFIELD,
    GETMETHOD,
    ADD,
    SUB,
    MUL,
    DIV,
    MOD,
    POW,
    BLSHIFT,
    BRSHIFT,
    BAND,
    BOR,
    ADDOV,
    SUBOV,
    MULOV,
    DIVOV,
    TYCAST,
}

pub open spec fn spec_opcode_number(op: Opcode) -> u32 {
    match op {
        Opcode::LOADK => 0,
        Opcode::MOVE => 1,
        Opcode::CALL => 2,
        Opcode::RET => 3,
        Opcode::GETUPVAL => 4,
        Opcode::NEWCLASS => 5,
        Opcode::SETFIELD => 6,
        Opcode::GETFIELD => 7,
        Opcode::GETMETHOD => 8,
        Opcode::ADD => 9,
        Opcode::SUB => 10,
        Opcode::MUL => 11,
        Opcode::DIV => 12,
        Opcode::MOD => 13,
        Opcode::POW => 14,
        Opcode::BLSHIFT => 15,
        Opcode::BRSHIFT => 16,
        Opcode::BAND => 17,
        Opcode::BOR => 18,
        Opcode::ADDOV => 19,
        Opcode::SUBOV => 20,
        Opcode::MULOV => 21,
        Opcode::DIVOV => 22,
        Opcode::TYCAST => 23,
    }
}

/// The number an opcode is encoded as.
pub fn opcode_number(op: Opcode) -> (n: u32)
    ensures
        n == spec_opcode_number(op),
{
    match op {
        Opcode::LOADK => 0,
        Opcode::MOVE => 1,
        Opcode::CALL => 2,
        Opcode::RET => 3,
        Opcode::GETUPVAL => 4,
        Opcode::NEWCLASS => 5,
        Opcode::SETFIELD => 6,
        Opcode::GETFIELD => 7,
        Opcode::GETMETHOD => 8,
        Opcode::ADD => 9,
        Opcode::SUB => 10,
        Opcode::MUL => 11,
        Opcode::DIV => 12,
        Opcode::MOD => 13,
        Opcode::POW => 14,
        Opcode::BLSHIFT => 15,
        Opcode::BRSHIFT => 16,
        Opcode::BAND => 17,
        Opcode::BOR => 18,
        Opcode::ADDOV => 19,
        Opcode::SUBOV => 20,
        Opcode::MULOV => 21,
        Opcode::DIVOV => 22,
        Opcode::TYCAST => 23,
    }
}

/// An instruction with three 8-bit operands: the opcode in the lowest byte,
/// then `a`, `b` and `c`.
pub open spec fn spec_pack_abc(op: u32, a: u32, b: u32, c: u32) -> u32 {
    ((op % 256) + (a % 256) * 256 + (b % 256) * 65536 + (c % 256) * 16777216) as u32
}

/// An instruction with an 8-bit operand `a` and a 16-bit operand `bx`.
pub open spec fn spec_pack_abx(op: u32, a: u32, bx: u32) -> u32 {
    ((op % 256) + (a % 256) * 256 + (bx % 65536) * 65536) as u32
}

pub fn pack_abc(op: u32, a: u32, b: u32, c: u32) -> (r: u32)
    ensures
        r == spec_pack_abc(op, a, b, c),
{
    let r = (op & 0xff) | ((a & 0xff) << 8u32) | ((b & 0xff) << 16u32) | ((c & 0xff) << 24u32);
    assert(r == spec_pack_abc(op, a, b, c)) by (bit_vector)
        requires
            r == (op & 0xff) | ((a & 0xff) << 8u32) | ((b & 0xff) << 16u32) | ((c & 0xff) << 24u32),
    ;
    r
}

pub fn pack_abx(op: u32, a: u32, bx: u32) -> (r: u32)
    ensures
        r == spec_pack_abx(op, a, bx),
{
    let r = (op & 0xff) | ((a & 0xff) << 8u32) | ((bx & 0xffff) << 16u32);
    assert(r == spec_pack_abx(op, a, bx)) by (bit_vector)
        requires
            r == (op & 0xff) | ((a & 0xff) << 8u32) | ((bx & 0xffff) << 16u32),
    ;
    r
}

/// A constant of a function prototype's constant table. A float carries the
/// IEEE-754 bit pattern of its `f64` value.
#[derive(Debug)]
pub enum ConstantValue {
    I32(i32),
    F64(u64),
    String(String),
    NativeFunctionProto(usize),
    FunctionProto(usize),
    ClassProto {
        name: String,
        /// Visibility of each field, in declaration order.
        fields: Vec<bool>,
        /// (prototype index, is public) of each method, by method index.
        methods: Vec<(usize, bool)>,
        /// Prototype index of each overloaded operator.
        operators: Vec<(Operator, usize)>,
    },
    Type(Type),
}

pub enum ConstantValueV {
    I32(i32),
    F64(u64),
    String(Seq<char>),
    NativeFunctionProto(usize),
    FunctionProto(usize),
    ClassProto {
        name: Seq<char>,
        fields: Seq<bool>,
        methods: Seq<(usize, bool)>,
        operators: Seq<(Operator, usize)>,
    },
    Type(TypeV),
}

impl View for ConstantValue {
    type V = ConstantValueV;

    open spec fn view(&self) -> ConstantValueV {
        match self {
            ConstantValue::I32(n) => ConstantValueV::I32(*n),
            ConstantValue::F64(f) => ConstantValueV::F64(*f),
            ConstantValue::String(s) => ConstantValueV::String(s@),
            ConstantValue::NativeFunctionProto(i) => ConstantValueV::NativeFunctionProto(*i),
            ConstantValue::FunctionProto(i) => ConstantValueV::FunctionProto(*i),
            ConstantValue::ClassProto { name, fields, methods, operators } => ConstantValueV::ClassProto {
                name: name@,
                fields: fields@,
                methods: methods@,
                operators: operators@,
            },
            ConstantValue::Type(t) => ConstantValueV::Type(t@),
        }
    }
}

pub open spec fn view_constants(s: Seq<ConstantValue>) -> Seq<ConstantValueV> {
    s.map_values(|c: ConstantValue| c@)
}

fn bools_equal(a: &Vec<bool>, b: &Vec<bool>) -> (r: bool)
    ensures
        r == (a@ == b@),
{
    if a.len() != b.len() {
        return false;
    }
    let mut i: usize = 0;
    while i < a.len()
        invariant
            i <= a.len(),
            a.len() == b.len(),
            forall|j: int| 0 <= j < i ==> a@[j] == b@[j],
        decreases a.len() - i,
    {
        if !(a[i] == b[i]) {
            return false;
        }
        i = i + 1;
    }
    assert(a@ =~= b@);
    true
}

fn slots_equal(a: &Vec<(usize, bool)>, b: &Vec<(usize, bool)>) -> (r: bool)
    ensures
        r == (a@ == b@),
{
    if a.len() != b.len() {
        return false;
    }
    let mut i: usize = 0;
    while i < a.len()
        invariant
            i <= a.len(),
            a.len() == b.len(),
            forall|j: int| 0 <= j < i ==> a@[j] == b@[j],
        decreases a.len() - i,
    {
        if !(a[i].0 == b[i].0 && a[i].1 == b[i].1) {
            return false;
        }
        i = i + 1;
    }
    assert(a@ =~= b@);
    true
}

fn op_slots_equal(a: &Vec<(Operator, usize)>, b: &Vec<(Operator, usize)>) -> (r: bool)
    ensures
        r == (a@ == b@),
{
    if a.len() != b.len() {
        return false;
    }
    let mut i: usize = 0;
    while i < a.len()
        invariant
            i <= a.len(),
            a.len() == b.len(),
            forall|j: int| 0 <= j < i ==> a@[j] == b@[j],
        decreases a.len() - i,
    {
        if !(a[i].0 == b[i].0 && a[i].1 == b[i].1) {
            return false;
        }
        i = i + 1;
    }
    assert(a@ =~= b@);
    true
}

fn vec_copy<T: Copy>(a: &Vec<T>) -> (r: Vec<T>)
    ensures
        r@ == a@,
{
    let mut r: Vec<T> = Vec::new();
    let mut i: usize = 0;
    while i < a.len()
        invariant
            i <= a.len(),
            r@ == a@.take(i as int),
        decreases a.len() - i,
    {
        r.push(a[i]);
        assert(a@.take(i + 1) =~= a@.take(i as int).push(a@[i as int]));
        i = i + 1;
    }
    assert(a@.take(a.len() as int) =~= a@);
    r
}

impl ConstantValue {
    /// Structural equality of constants.
    pub fn equals(&self, other: &ConstantValue) -> (r: bool)
        ensures
            r == (self@ == other@),
    {
        match (self, other) {
            (ConstantValue::I32(a), ConstantValue::I32(b)) => *a == *b,
            (ConstantValue::F64(a), ConstantValue::F64(b)) => *a == *b,
            (ConstantValue::String(a), ConstantValue::String(b)) => *a == *b,
            (ConstantValue::NativeFunctionProto(a), ConstantValue::NativeFunctionProto(b)) => *a == *b,
            (ConstantValue::FunctionProto(a), ConstantValue::FunctionProto(b)) => *a == *b,
            (
                ConstantValue::ClassProto { name: n1, fields: f1, methods: m1, operators: o1 },
                ConstantValue::ClassProto { name: n2, fields: f2, methods: m2, operators: o2 },
            ) => *n1 == *n2 && bools_equal(f1, f2) && slots_equal(m1, m2) && op_slots_equal(o1, o2),
            (ConstantValue::Type(a), ConstantValue::Type(b)) => a.equals(b),
            _ => false,
        }
    }

    /// A fresh copy of this constant.
    pub fn copy(&self) -> (r: ConstantValue)
        ensures
            r@ == self@,
    {
        match self {
            ConstantValue::I32(a) => ConstantValue::I32(*a),
            ConstantValue::F64(a) => ConstantValue::F64(*a),
            ConstantValue::String(a) => ConstantValue::String(a.clone()),
            ConstantValue::NativeFunctionProto(a) => ConstantValue::NativeFunctionProto(*a),
            ConstantValue::FunctionProto(a) => ConstantValue::FunctionProto(*a),
            ConstantValue::ClassProto { name, fields, methods, operators } => ConstantValue::ClassProto {
                name: name.clone(),
                fields: vec_copy(fields),
                methods: vec_copy(methods),
                operators: vec_copy(operators),
            },
            ConstantValue::Type(t) => ConstantValue::Type(t.copy()),
        }
    }
}

/// Where a captured variable lives in the enclosing function.
#[derive(Debug, Clone, Copy, PartialEq, Eq, Structural)]
pub enum UpvalueSource {
    ParentRegister(usize),
    ParentUpvalue(usize),
}

#[derive(Debug)]
pub struct UpvalueDescriptor {
    pub name: String,
    pub source: UpvalueSource,
    pub ty: Type,
}

/// A function registered by the host. The host keeps the function itself,
/// under the same index.
#[derive(Debug)]
pub struct NativeFunctionProto {
    pub name: String,
    pub arity: u8,
}

/// A compiled function.
#[derive(Debug)]
pub struct FunctionProto {
    pub name: String,
    pub arity: u8,
    pub max_regs: usize,
    pub code: Vec<u32>,
    pub constants: Vec<ConstantValue>,
    pub protos: Vec<FunctionProto>,
    pub upvalues: Vec<UpvalueDescriptor>,
    /// Register top of the enclosing function when this one was entered.
    pub saved_reg_top: usize,
}

} // verus!
