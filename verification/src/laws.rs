use vstd::prelude::*;
use crate::bytecode::{ConstantValue, UpvalueDescriptor, spec_pack_abc, spec_pack_abx};
use crate::codegen::{const_slot, upvalue_slot};
use crate::compiler::{LucyCompiler, first_constant_index, first_upvalue_index, lemma_first_constant_index, lemma_first_upvalue_index};
use crate::syntax::TypeNodeV;
use crate::ty::{TypeV, spec_display};
use crate::typing::{spec_assignable, spec_builtin};
use crate::bytecode::spec_opcode_number;
use crate::codegen::binary_opcode;
use crate::grammar::{spec_get_bp, spec_infix_operator, spec_overload_operator};
use crate::operator::Operator;
use crate::token::{Sym, Token};
use crate::ty::Type;

verus! {

/// An instruction with three operands keeps each of them, to its low eight
/// bits, in a byte of its own: the opcode in the lowest, then `a`, `b`, `c`.
pub proof fn law_pack_abc_fields(op: u32, a: u32, b: u32, c: u32)
    ensures
        spec_pack_abc(op, a, b, c) & 0xff == op & 0xff,
        (spec_pack_abc(op, a, b, c) >> 8u32) & 0xff == a & 0xff,
        (spec_pack_abc(op, a, b, c) >> 16u32) & 0xff == b & 0xff,
        (spec_pack_abc(op, a, b, c) >> 24u32) & 0xff == c & 0xff,
{
    let x = spec_pack_abc(op, a, b, c);
    assert(x == ((op & 0xff) | ((a & 0xff) << 8u32) | ((b & 0xff) << 16u32) | ((c & 0xff) << 24u32))) by (bit_vector)
        requires
            x == ((op % 256) + (a % 256) * 256 + (b % 256) * 65536 + (c % 256) * 16777216) as u32,
    ;
    assert(x & 0xff == op & 0xff && (x >> 8u32) & 0xff == a & 0xff && (x >> 16u32) & 0xff == b & 0xff && (x >> 24u32)
        & 0xff == c & 0xff) by (bit_vector)
        requires
            x == ((op & 0xff) | ((a & 0xff) << 8u32) | ((b & 0xff) << 16u32) | ((c & 0xff) << 24u32)),
    ;
}

/// An instruction with a wide operand keeps the opcode in its lowest byte,
/// `a` in the next and the low sixteen bits of `bx` above them.
pub proof fn law_pack_abx_fields(op: u32, a: u32, bx: u32)
    ensures
        spec_pack_abx(op, a, bx) & 0xff == op & 0xff,
        (spec_pack_abx(op, a, bx) >> 8u32) & 0xff == a & 0xff,
        spec_pack_abx(op, a, bx) >> 16u32 == bx & 0xffff,
{
    let x = spec_pack_abx(op, a, bx);
    assert(x == ((op & 0xff) | ((a & 0xff) << 8u32) | ((bx & 0xffff) << 16u32))) by (bit_vector)
        requires
            x == ((op % 256) + (a % 256) * 256 + (bx % 65536) * 65536) as u32,
    ;
    assert(x & 0xff == op & 0xff && (x >> 8u32) & 0xff == a & 0xff && x >> 16u32 == bx & 0xffff) by (bit_vector)
        requires
            x == ((op & 0xff) | ((a & 0xff) << 8u32) | ((bx & 0xffff) << 16u32)),
    ;
}

/// Giving a constant a slot twice gives it one slot: once the table `after`
/// holds `c` (as the first call leaves it), a second call finds `c` at the
/// slot the first one gave, and adds nothing.
pub proof fn law_constant_slot_stable(before: Seq<ConstantValue>, c: ConstantValue, after: Seq<ConstantValue>)
    requires
        first_constant_index(before, c@) >= 0 ==> after == before,
        first_constant_index(before, c@) < 0 ==> after == before.push(c),
    ensures
        first_constant_index(after, c@) >= 0,
        const_slot(after, c@) == const_slot(before, c@),
{
    lemma_first_constant_index(before, c@);
    if first_constant_index(before, c@) < 0 {
        lemma_first_constant_index(after, c@);
        assert(after[before.len() as int] == c);
        assert forall|j: int| 0 <= j < before.len() implies (#[trigger] after[j])@ != c@ by {
            assert(after[j] == before[j]);
        }
    }
}

/// Capturing a variable twice gives it one upvalue: once the upvalues
/// `after` hold one named `name` (as the first capture leaves them), a
/// second capture finds it at the index the first one gave.
pub proof fn law_upvalue_slot_stable(before: Seq<UpvalueDescriptor>, name: Seq<char>, after: Seq<UpvalueDescriptor>)
    requires
        first_upvalue_index(before, name) >= 0 ==> after == before,
        first_upvalue_index(before, name) < 0 ==> after.len() == before.len() + 1 && after.drop_last() == before
            && after.last().name@ == name,
    ensures
        first_upvalue_index(after, name) >= 0,
        upvalue_slot(after, name) == upvalue_slot(before, name),
{
    lemma_first_upvalue_index(before, name);
    if first_upvalue_index(before, name) < 0 {
        lemma_first_upvalue_index(after, name);
        assert forall|j: int| 0 <= j < before.len() implies (#[trigger] after[j]).name@ != name by {
            assert(after[j] == after.drop_last()[j]);
        }
    }
}

/// A built-in type is written as the name that denotes it.
pub proof fn law_builtin_names_round_trip(name: Seq<char>)
    ensures
        spec_builtin(name) matches Some(t) ==> spec_display(t) == name,
{
}

/// A built-in type name means the built-in type, whatever the scopes bind
/// to that name and whatever arguments it is given.
pub proof fn law_builtin_names_not_shadowed(c: LucyCompiler, name: Seq<char>, generics: Seq<TypeNodeV>)
    requires
        spec_builtin(name) is Some,
    ensures
        c.spec_compile_type(TypeNodeV::NominalType { name, generics }) == spec_builtin(name)->0,
{
}

/// Every type may be stored where the same type is expected, and an unknown
/// type goes with any type.
pub proof fn law_assignable(t: TypeV, u: TypeV)
    ensures
        spec_assignable(t, t),
        spec_assignable(TypeV::Unknown, u),
        spec_assignable(u, TypeV::Unknown),
{
}

/// Compiling only adds: what compiling keeps of a compiler, the compiler
/// keeps through every compilation after it too.
pub proof fn law_compiling_only_adds(a: LucyCompiler, b: LucyCompiler, c: LucyCompiler)
    requires
        b.extends(a),
        c.extends(b),
    ensures
        a.extends(a),
        c.extends(a),
{
    LucyCompiler::lemma_extends_refl(a);
    LucyCompiler::lemma_extends_trans(a, b, c);
}

/// Leaving a scope undoes entering it: whatever is compiled in between,
/// as long as it leaves the scopes below and the entered scope's base
/// alone, the scopes are as before and every register taken since is free
/// again.
pub proof fn law_scope_round_trip(entered_from: LucyCompiler, entered: LucyCompiler, inside: LucyCompiler, left: LucyCompiler)
    requires
        entered.scopes.scopes@.len() == entered_from.scopes.scopes@.len() + 1,
        entered.scopes.scopes@.drop_last() == entered_from.scopes.scopes@,
        entered.scopes.scopes@.last().reg_base == entered_from.reg_alloc.current_top,
        inside.scopes.scopes@.len() == entered.scopes.scopes@.len(),
        inside.scopes.scopes@.drop_last() == entered.scopes.scopes@.drop_last(),
        inside.scopes.scopes@.last().reg_base == entered.scopes.scopes@.last().reg_base,
        left.scopes.scopes@ == inside.scopes.scopes@.drop_last(),
        left.reg_alloc.current_top == inside.scopes.scopes@.last().reg_base,
    ensures
        left.scopes.scopes@ == entered_from.scopes.scopes@,
        left.reg_alloc.current_top == entered_from.reg_alloc.current_top,
{
}

/// Leaving a prototype undoes entering it: the prototypes, the nesting and
/// the register top are as before, and the prototype handed back carries
/// the name and arity it was entered with.
pub proof fn law_proto_round_trip(entered_from: LucyCompiler, entered: LucyCompiler, inside: LucyCompiler, left: LucyCompiler, done: crate::bytecode::FunctionProto)
    requires
        entered.proto_depth == entered_from.proto_depth + 1,
        entered.proto_stack@.len() == entered_from.proto_stack@.len() + 1,
        entered.proto_stack@.drop_last() == entered_from.proto_stack@,
        entered.cur().saved_reg_top == entered_from.reg_alloc.current_top,
        inside.extends(entered),
        done == inside.cur(),
        left.proto_depth == inside.proto_depth - 1,
        left.proto_stack@ == inside.proto_stack@.drop_last(),
        left.reg_alloc.current_top == inside.cur().saved_reg_top,
    ensures
        left.proto_stack@ == entered_from.proto_stack@,
        left.proto_depth == entered_from.proto_depth,
        left.reg_alloc.current_top == entered_from.reg_alloc.current_top,
        done.name == entered.cur().name,
        done.arity == entered.cur().arity,
{
}

/// The built-in types: the integer types, `usize`, `bool`, `string` and
/// `empty`.
pub open spec fn is_builtin_type(t: TypeV) -> bool {
    t is U8 || t is I8 || t is U16 || t is I16 || t is U32 || t is I32 || t is U64 || t is I64 || t is USize
        || t is Bool || t is String || t is Empty
}

/// Every built-in type is named by the text it is displayed as.
pub proof fn law_builtin_types_named(t: TypeV)
    requires
        is_builtin_type(t),
    ensures
        spec_builtin(spec_display(t)) == Some(t),
{
    reveal_strlit("u8");
    reveal_strlit("i8");
    reveal_strlit("u16");
    reveal_strlit("i16");
    reveal_strlit("u32");
    reveal_strlit("i32");
    reveal_strlit("u64");
    reveal_strlit("i64");
    reveal_strlit("usize");
    reveal_strlit("bool");
    reveal_strlit("string");
    reveal_strlit("empty");
    match t {
        TypeV::U8 => {
        },
        TypeV::I8 => {
            assert("i8"@ != "u8"@) by { assert("i8"@.len() != "u8"@.len() || "i8"@[0] != "u8"@[0] || "i8"@[1] != "u8"@[1]); }
        },
        TypeV::U16 => {
            assert("u16"@ != "u8"@) by { assert("u16"@.len() != "u8"@.len() || "u16"@[0] != "u8"@[0] || "u16"@[1] != "u8"@[1]); }
            assert("u16"@ != "i8"@) by { assert("u16"@.len() != "i8"@.len() || "u16"@[0] != "i8"@[0] || "u16"@[1] != "i8"@[1]); }
        },
        TypeV::I16 => {
            assert("i16"@ != "u8"@) by { assert("i16"@.len() != "u8"@.len() || "i16"@[0] != "u8"@[0] || "i16"@[1] != "u8"@[1]); }
            assert("i16"@ != "i8"@) by { assert("i16"@.len() != "i8"@.len() || "i16"@[0] != "i8"@[0] || "i16"@[1] != "i8"@[1]); }
            assert("i16"@ != "u16"@) by { assert("i16"@.len() != "u16"@.len() || "i16"@[0] != "u16"@[0] || "i16"@[1] != "u16"@[1]); }
        },
        TypeV::U32 => {
            assert("u32"@ != "u8"@) by { assert("u32"@.len() != "u8"@.len() || "u32"@[0] != "u8"@[0] || "u32"@[1] != "u8"@[1]); }
            assert("u32"@ != "i8"@) by { assert("u32"@.len() != "i8"@.len() || "u32"@[0] != "i8"@[0] || "u32"@[1] != "i8"@[1]); }
            assert("u32"@ != "u16"@) by { assert("u32"@.len() != "u16"@.len() || "u32"@[0] != "u16"@[0] || "u32"@[1] != "u16"@[1]); }
            assert("u32"@ != "i16"@) by { assert("u32"@.len() != "i16"@.len() || "u32"@[0] != "i16"@[0] || "u32"@[1] != "i16"@[1]); }
        },
        TypeV::I32 => {
            assert("i32"@ != "u8"@) by { assert("i32"@.len() != "u8"@.len() || "i32"@[0] != "u8"@[0] || "i32"@[1] != "u8"@[1]); }
            assert("i32"@ != "i8"@) by { assert("i32"@.len() != "i8"@.len() || "i32"@[0] != "i8"@[0] || "i32"@[1] != "i8"@[1]); }
            assert("i32"@ != "u16"@) by { assert("i32"@.len() != "u16"@.len() || "i32"@[0] != "u16"@[0] || "i32"@[1] != "u16"@[1]); }
            assert("i32"@ != "i16"@) by { assert("i32"@.len() != "i16"@.len() || "i32"@[0] != "i16"@[0] || "i32"@[1] != "i16"@[1]); }
            assert("i32"@ != "u32"@) by { assert("i32"@.len() != "u32"@.len() || "i32"@[0] != "u32"@[0] || "i32"@[1] != "u32"@[1]); }
        },
        TypeV::U64 => {
            assert("u64"@ != "u8"@) by { assert("u64"@.len() != "u8"@.len() || "u64"@[0] != "u8"@[0] || "u64"@[1] != "u8"@[1]); }
            assert("u64"@ != "i8"@) by { assert("u64"@.len() != "i8"@.len() || "u64"@[0] != "i8"@[0] || "u64"@[1] != "i8"@[1]); }
            assert("u64"@ != "u16"@) by { assert("u64"@.len() != "u16"@.len() || "u64"@[0] != "u16"@[0] || "u64"@[1] != "u16"@[1]); }
            assert("u64"@ != "i16"@) by { assert("u64"@.len() != "i16"@.len() || "u64"@[0] != "i16"@[0] || "u64"@[1] != "i16"@[1]); }
            assert("u64"@ != "u32"@) by { assert("u64"@.len() != "u32"@.len() || "u64"@[0] != "u32"@[0] || "u64"@[1] != "u32"@[1]); }
            assert("u64"@ != "i32"@) by { assert("u64"@.len() != "i32"@.len() || "u64"@[0] != "i32"@[0] || "u64"@[1] != "i32"@[1]); }
        },
        TypeV::I64 => {
            assert("i64"@ != "u8"@) by { assert("i64"@.len() != "u8"@.len() || "i64"@[0] != "u8"@[0] || "i64"@[1] != "u8"@[1]); }
            assert("i64"@ != "i8"@) by { assert("i64"@.len() != "i8"@.len() || "i64"@[0] != "i8"@[0] || "i64"@[1] != "i8"@[1]); }
            assert("i64"@ != "u16"@) by { assert("i64"@.len() != "u16"@.len() || "i64"@[0] != "u16"@[0] || "i64"@[1] != "u16"@[1]); }
            assert("i64"@ != "i16"@) by { assert("i64"@.len() != "i16"@.len() || "i64"@[0] != "i16"@[0] || "i64"@[1] != "i16"@[1]); }
            assert("i64"@ != "u32"@) by { assert("i64"@.len() != "u32"@.len() || "i64"@[0] != "u32"@[0] || "i64"@[1] != "u32"@[1]); }
            assert("i64"@ != "i32"@) by { assert("i64"@.len() != "i32"@.len() || "i64"@[0] != "i32"@[0] || "i64"@[1] != "i32"@[1]); }
            assert("i64"@ != "u64"@) by { assert("i64"@.len() != "u64"@.len() || "i64"@[0] != "u64"@[0] || "i64"@[1] != "u64"@[1]); }
        },
        TypeV::USize => {
            assert("usize"@ != "u8"@) by { assert("usize"@.len() != "u8"@.len() || "usize"@[0] != "u8"@[0] || "usize"@[1] != "u8"@[1]); }
            assert("usize"@ != "i8"@) by { assert("usize"@.len() != "i8"@.len() || "usize"@[0] != "i8"@[0] || "usize"@[1] != "i8"@[1]); }
            assert("usize"@ != "u16"@) by { assert("usize"@.len() != "u16"@.len() || "usize"@[0] != "u16"@[0] || "usize"@[1] != "u16"@[1]); }
            assert("usize"@ != "i16"@) by { assert("usize"@.len() != "i16"@.len() || "usize"@[0] != "i16"@[0] || "usize"@[1] != "i16"@[1]); }
            assert("usize"@ != "u32"@) by { assert("usize"@.len() != "u32"@.len() || "usize"@[0] != "u32"@[0] || "usize"@[1] != "u32"@[1]); }
            assert("usize"@ != "i32"@) by { assert("usize"@.len() != "i32"@.len() || "usize"@[0] != "i32"@[0] || "usize"@[1] != "i32"@[1]); }
            assert("usize"@ != "u64"@) by { assert("usize"@.len() != "u64"@.len() || "usize"@[0] != "u64"@[0] || "usize"@[1] != "u64"@[1]); }
            assert("usize"@ != "i64"@) by { assert("usize"@.len() != "i64"@.len() || "usize"@[0] != "i64"@[0] || "usize"@[1] != "i64"@[1]); }
        },
        TypeV::Bool => {
            assert("bool"@ != "u8"@) by { assert("bool"@.len() != "u8"@.len() || "bool"@[0] != "u8"@[0] || "bool"@[1] != "u8"@[1]); }
            assert("bool"@ != "i8"@) by { assert("bool"@.len() != "i8"@.len() || "bool"@[0] != "i8"@[0] || "bool"@[1] != "i8"@[1]); }
            assert("bool"@ != "u16"@) by { assert("bool"@.len() != "u16"@.len() || "bool"@[0] != "u16"@[0] || "bool"@[1] != "u16"@[1]); }
            assert("bool"@ != "i16"@) by { assert("bool"@.len() != "i16"@.len() || "bool"@[0] != "i16"@[0] || "bool"@[1] != "i16"@[1]); }
            assert("bool"@ != "u32"@) by { assert("bool"@.len() != "u32"@.len() || "bool"@[0] != "u32"@[0] || "bool"@[1] != "u32"@[1]); }
            assert("bool"@ != "i32"@) by { assert("bool"@.len() != "i32"@.len() || "bool"@[0] != "i32"@[0] || "bool"@[1] != "i32"@[1]); }
            assert("bool"@ != "u64"@) by { assert("bool"@.len() != "u64"@.len() || "bool"@[0] != "u64"@[0] || "bool"@[1] != "u64"@[1]); }
            assert("bool"@ != "i64"@) by { assert("bool"@.len() != "i64"@.len() || "bool"@[0] != "i64"@[0] || "bool"@[1] != "i64"@[1]); }
            assert("bool"@ != "usize"@) by { assert("bool"@.len() != "usize"@.len() || "bool"@[0] != "usize"@[0] || "bool"@[1] != "usize"@[1]); }
        },
        TypeV::String => {
            assert("string"@ != "u8"@) by { assert("string"@.len() != "u8"@.len() || "string"@[0] != "u8"@[0] || "string"@[1] != "u8"@[1]); }
            assert("string"@ != "i8"@) by { assert("string"@.len() != "i8"@.len() || "string"@[0] != "i8"@[0] || "string"@[1] != "i8"@[1]); }
            assert("string"@ != "u16"@) by { assert("string"@.len() != "u16"@.len() || "string"@[0] != "u16"@[0] || "string"@[1] != "u16"@[1]); }
            assert("string"@ != "i16"@) by { assert("string"@.len() != "i16"@.len() || "string"@[0] != "i16"@[0] || "string"@[1] != "i16"@[1]); }
            assert("string"@ != "u32"@) by { assert("string"@.len() != "u32"@.len() || "string"@[0] != "u32"@[0] || "string"@[1] != "u32"@[1]); }
            assert("string"@ != "i32"@) by { assert("string"@.len() != "i32"@.len() || "string"@[0] != "i32"@[0] || "string"@[1] != "i32"@[1]); }
            assert("string"@ != "u64"@) by { assert("string"@.len() != "u64"@.len() || "string"@[0] != "u64"@[0] || "string"@[1] != "u64"@[1]); }
            assert("string"@ != "i64"@) by { assert("string"@.len() != "i64"@.len() || "string"@[0] != "i64"@[0] || "string"@[1] != "i64"@[1]); }
            assert("string"@ != "usize"@) by { assert("string"@.len() != "usize"@.len() || "string"@[0] != "usize"@[0] || "string"@[1] != "usize"@[1]); }
            assert("string"@ != "bool"@) by { assert("string"@.len() != "bool"@.len() || "string"@[0] != "bool"@[0] || "string"@[1] != "bool"@[1]); }
        },
        TypeV::Empty => {
            assert("empty"@ != "u8"@) by { assert("empty"@.len() != "u8"@.len() || "empty"@[0] != "u8"@[0] || "empty"@[1] != "u8"@[1]); }
            assert("empty"@ != "i8"@) by { assert("empty"@.len() != "i8"@.len() || "empty"@[0] != "i8"@[0] || "empty"@[1] != "i8"@[1]); }
            assert("empty"@ != "u16"@) by { assert("empty"@.len() != "u16"@.len() || "empty"@[0] != "u16"@[0] || "empty"@[1] != "u16"@[1]); }
            assert("empty"@ != "i16"@) by { assert("empty"@.len() != "i16"@.len() || "empty"@[0] != "i16"@[0] || "empty"@[1] != "i16"@[1]); }
            assert("empty"@ != "u32"@) by { assert("empty"@.len() != "u32"@.len() || "empty"@[0] != "u32"@[0] || "empty"@[1] != "u32"@[1]); }
            assert("empty"@ != "i32"@) by { assert("empty"@.len() != "i32"@.len() || "empty"@[0] != "i32"@[0] || "empty"@[1] != "i32"@[1]); }
            assert("empty"@ != "u64"@) by { assert("empty"@.len() != "u64"@.len() || "empty"@[0] != "u64"@[0] || "empty"@[1] != "u64"@[1]); }
            assert("empty"@ != "i64"@) by { assert("empty"@.len() != "i64"@.len() || "empty"@[0] != "i64"@[0] || "empty"@[1] != "i64"@[1]); }
            assert("empty"@ != "usize"@) by { assert("empty"@.len() != "usize"@.len() || "empty"@[0] != "usize"@[0] || "empty"@[1] != "usize"@[1]); }
            assert("empty"@ != "bool"@) by { assert("empty"@.len() != "bool"@.len() || "empty"@[0] != "bool"@[0] || "empty"@[1] != "bool"@[1]); }
            assert("empty"@ != "string"@) by { assert("empty"@.len() != "string"@.len() || "empty"@[0] != "string"@[0] || "empty"@[1] != "string"@[1]); }
        },
        _ => {},
    }
}

/// A value is accepted where a type is expected only when the two types
/// agree under one level of qualification, or one of them is not known;
/// and then it is. So two different built-in types never accept each
/// other's values.
pub proof fn law_assignable_is_agreement(lhs: TypeV, rhs: TypeV)
    ensures
        spec_assignable(lhs, rhs) <==> (lhs is Unknown || rhs is Unknown || Type::spec_inner(lhs) == Type::spec_inner(rhs)),
        is_builtin_type(lhs) && is_builtin_type(rhs) && lhs != rhs ==> !spec_assignable(lhs, rhs),
{
}

/// `*`, `/` and `%` bind alike and tighter than `+` and `-`, which bind
/// alike: for a multiplicative token `m` and an additive token `a`.
pub proof fn law_multiplicative_binds_tighter(m: Token, a: Token)
    requires
        m == Token::BINOP(Sym::Star) || m == Token::BINOP(Sym::Slash) || m == Token::BINOP(Sym::Percent),
        a == Token::BINOP(Sym::Plus) || a == Token::BINOP(Sym::Minus),
    ensures
        spec_infix_operator(m) is Mul || spec_infix_operator(m) is Div || spec_infix_operator(m) is Mod,
        spec_infix_operator(a) is Add || spec_infix_operator(a) is Sub,
        spec_get_bp(m) is Some && spec_get_bp(a) is Some,
        spec_get_bp(m) == spec_get_bp(Token::BINOP(Sym::Star)),
        spec_get_bp(a) == spec_get_bp(Token::BINOP(Sym::Plus)),
        spec_get_bp(m)->0 > spec_get_bp(a)->0,
{
}

/// The operator named after `operator` is the one its symbol stands for in
/// an expression: each of `+`, `-`, `*` and `/` can be overloaded, and two
/// different operator symbols never name the same overload.
pub proof fn law_overload_operator_is_symbol(t: Token, u: Token)
    ensures
        t == Token::BINOP(Sym::Plus) || t == Token::BINOP(Sym::Minus) || t == Token::BINOP(Sym::Star) || t == Token::BINOP(
            Sym::Slash,
        ) ==> spec_overload_operator(t) == Some(spec_infix_operator(t)),
        t is BINOP && spec_overload_operator(t) is Some ==> spec_overload_operator(t) == Some(spec_infix_operator(t)),
        t is BINOP && u is BINOP && t != u && spec_overload_operator(t) is Some && spec_overload_operator(u) is Some
            ==> spec_overload_operator(t) != spec_overload_operator(u),
{
}

/// Each operator compiles to an opcode of its own; an overloaded operator
/// has an overload opcode exactly when a class can overload it, and that
/// opcode is the operator's plain opcode shifted by the ten plain
/// arithmetic and bitwise opcodes, so it calls the overload of that same
/// operator.
pub proof fn law_operator_opcodes(op1: Operator, op2: Operator)
    ensures
        binary_opcode(op1, true) matches Some(o) ==> (binary_opcode(op1, false) matches Some(p) && spec_opcode_number(o)
            == spec_opcode_number(p) + 10),
        binary_opcode(op1, true) is Some <==> exists|t: Token| #[trigger] spec_overload_operator(t) == Some(op1),
        op1 != op2 && binary_opcode(op1, false) is Some && binary_opcode(op2, false) is Some ==> spec_opcode_number(
            binary_opcode(op1, false)->0,
        ) != spec_opcode_number(binary_opcode(op2, false)->0),
        op1 != op2 && binary_opcode(op1, true) is Some && binary_opcode(op2, true) is Some ==> spec_opcode_number(
            binary_opcode(op1, true)->0,
        ) != spec_opcode_number(binary_opcode(op2, true)->0),
{
    if binary_opcode(op1, true) is Some {
        let t = match op1 {
            Operator::Add => Token::BINOP(Sym::Plus),
            Operator::Sub => Token::BINOP(Sym::Minus),
            Operator::Mul => Token::BINOP(Sym::Star),
            _ => Token::BINOP(Sym::Slash),
        };
        assert(spec_overload_operator(t) == Some(op1));
    }
}

} // verus!
