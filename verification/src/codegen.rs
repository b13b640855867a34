use vstd::prelude::*;
use crate::bytecode::{
    ConstantValue, ConstantValueV, Opcode, UpvalueDescriptor, UpvalueSource, opcode_number, pack_abc, pack_abx, spec_opcode_number,
    spec_pack_abc, spec_pack_abx, view_constants,
};
use crate::compiler::{
    CompileError, CompilingCtx, LucyCompiler, first_constant_index, first_upvalue_index, is_prefix, text3,
};
use crate::operator::Operator;
use crate::scope::{Local, LocalResolution, Namespace, RegisterAllocator, ScopeStack};
use crate::syntax::{AstNode, AstNodeV, BindingNode, BindingNodeV, ClassMember, TypeNode};
use crate::bytecode::FunctionProto;
use crate::name_map::NameMap;
use crate::ty::ClassType;
use crate::ty::{FunctionType, Type, TypeV};
use crate::typing::name_is;

verus! {

/// The slot that `c` takes in a constant table `cs`: the first equal
/// constant, or a new one at the end.
pub open spec fn const_slot(cs: Seq<ConstantValue>, c: ConstantValueV) -> int {
    if first_constant_index(cs, c) >= 0 {
        first_constant_index(cs, c)
    } else {
        cs.len() as int
    }
}

/// The class that the type part `ty` of a class literal names, inside class
/// `cls`: a name, or `Self`, possibly borrowed or moved.
pub open spec fn literal_class_name(ty: AstNodeV, cls: Option<Seq<char>>) -> Option<Seq<char>> {
    match ty {
        AstNodeV::Identifier(s) => Some(s),
        AstNodeV::SelfExpr => cls,
        AstNodeV::Borrowed(b) => match *b {
            AstNodeV::SelfExpr => cls,
            AstNodeV::Identifier(s) => Some(s),
            _ => None,
        },
        AstNodeV::Moved(b) => match *b {
            AstNodeV::SelfExpr => cls,
            AstNodeV::Identifier(s) => Some(s),
            _ => None,
        },
        _ => None,
    }
}

/// The register in which a member access into `dst` evaluates its object,
/// `top` being the first free register.
pub open spec fn object_register(top: usize, dst: usize) -> usize {
    if top <= dst + 1 {
        (dst + 1) as usize
    } else {
        top
    }
}

/// The parameters `ps` of a function that a call's arguments are passed
/// for: all of them, or for a method all but the instance.
pub open spec fn argument_params(ps: Seq<TypeV>, method: bool) -> Seq<TypeV> {
    if !method {
        ps
    } else if ps.len() > 0 {
        ps.drop_first()
    } else {
        Seq::empty()
    }
}

/// The methods that class members `ms` declare: each name, with whether its
/// last declaration is public.
pub open spec fn declared_methods(ms: Seq<ClassMember>) -> Map<Seq<char>, bool>
    decreases ms.len(),
{
    if ms.len() == 0 {
        Map::empty()
    } else {
        let rest = declared_methods(ms.drop_last());
        match ms.last() {
            ClassMember::Method { name, is_public, .. } => rest.insert(name@, is_public),
            _ => rest,
        }
    }
}

/// Which methods of a class's method table are public.
pub open spec fn method_publicity(m: Map<Seq<char>, (usize, usize, FunctionType, bool)>) -> Map<Seq<char>, bool> {
    Map::new(|k: Seq<char>| m.contains_key(k), |k: Seq<char>| m[k].3)
}

/// The operators that class members `ms` overload.
pub open spec fn declared_operators(ms: Seq<ClassMember>) -> Set<Operator>
    decreases ms.len(),
{
    if ms.len() == 0 {
        Set::empty()
    } else {
        let rest = declared_operators(ms.drop_last());
        match ms.last() {
            ClassMember::OperatorOverload { op, .. } => rest.insert(op),
            _ => rest,
        }
    }
}

/// The operators that an operator table has an entry for.
pub open spec fn operator_set(ops: Seq<(Operator, usize, FunctionType)>) -> Set<Operator> {
    Set::new(|o: Operator| exists|j: int| 0 <= j < ops.len() && (#[trigger] ops[j]).0 == o)
}

/// Replacing an entry of an operator table by one for the same operator
/// keeps the operators it has.
pub proof fn lemma_operator_set_update(ops: Seq<(Operator, usize, FunctionType)>, pos: int, e: (Operator, usize, FunctionType))
    requires
        0 <= pos < ops.len(),
        ops[pos].0 == e.0,
    ensures
        operator_set(ops.update(pos, e)) == operator_set(ops),
{
    let n = ops.update(pos, e);
    assert forall|o: Operator| operator_set(n).contains(o) == operator_set(ops).contains(o) by {
        if operator_set(ops).contains(o) {
            let j = choose|j: int| 0 <= j < ops.len() && (#[trigger] ops[j]).0 == o;
            assert(n[j].0 == o);
        }
        if operator_set(n).contains(o) {
            let j = choose|j: int| 0 <= j < n.len() && (#[trigger] n[j]).0 == o;
            assert(ops[j].0 == o);
        }
    }
    assert(operator_set(n) =~= operator_set(ops));
}

/// Adding an entry to an operator table adds its operator.
pub proof fn lemma_operator_set_push(ops: Seq<(Operator, usize, FunctionType)>, e: (Operator, usize, FunctionType))
    ensures
        operator_set(ops.push(e)) == operator_set(ops).insert(e.0),
{
    let n = ops.push(e);
    assert forall|o: Operator| operator_set(n).contains(o) == operator_set(ops).insert(e.0).contains(o) by {
        if operator_set(ops).contains(o) {
            let j = choose|j: int| 0 <= j < ops.len() && (#[trigger] ops[j]).0 == o;
            assert(n[j].0 == o);
        }
        if o == e.0 {
            assert(n[ops.len() as int].0 == o);
        }
        if operator_set(n).contains(o) && o != e.0 {
            let j = choose|j: int| 0 <= j < n.len() && (#[trigger] n[j]).0 == o;
            assert(j < ops.len());
            assert(ops[j].0 == o);
        }
    }
    assert(operator_set(n) =~= operator_set(ops).insert(e.0));
}

/// `e` is a literal.
pub open spec fn is_literal(e: AstNodeV) -> bool {
    e is IntLiteral || e is FloatLiteral || e is StringLiteral
}

/// The constant that literal `e` stands for.
pub open spec fn literal_constant(e: AstNodeV) -> ConstantValueV {
    match e {
        AstNodeV::IntLiteral(n) => ConstantValueV::I32(n),
        AstNodeV::FloatLiteral(f) => ConstantValueV::F64(f),
        AstNodeV::StringLiteral(t) => ConstantValueV::String(t),
        _ => ConstantValueV::I32(0),
    }
}

/// The type of literal `e`.
pub open spec fn literal_type(e: AstNodeV) -> TypeV {
    match e {
        AstNodeV::IntLiteral(_) => TypeV::I32,
        AstNodeV::FloatLiteral(_) => TypeV::F64,
        _ => TypeV::String,
    }
}

/// The index that each field name of the field table `fs` maps to: the
/// position of its last field of that name.
pub open spec fn field_positions(fs: Seq<(Seq<char>, TypeV, bool)>) -> Map<Seq<char>, usize>
    decreases fs.len(),
{
    if fs.len() == 0 {
        Map::empty()
    } else {
        field_positions(fs.drop_last()).insert(fs.last().0, (fs.len() - 1) as usize)
    }
}

/// The members of `ms` that are compiled into prototypes of their own, in
/// order: the methods and the operator overloads.
pub open spec fn callable_members(ms: Seq<ClassMember>) -> Seq<ClassMember>
    decreases ms.len(),
{
    if ms.len() == 0 {
        Seq::empty()
    } else {
        let rest = callable_members(ms.drop_last());
        if ms.last() is Method || ms.last() is OperatorOverload {
            rest.push(ms.last())
        } else {
            rest
        }
    }
}

/// No method of `ms` has the name of a method before it.
pub open spec fn distinct_method_names(ms: Seq<ClassMember>) -> bool
    decreases ms.len(),
{
    ms.len() == 0 || (distinct_method_names(ms.drop_last()) && (ms.last() matches ClassMember::Method { name, .. }
        ==> !declared_methods(ms.drop_last()).contains_key(name@)))
}

/// The method table of the prototype of a class with members `ms` whose
/// first callable member is compiled to prototype `base`: for each method in
/// order, the index of its prototype and whether it is public.
pub open spec fn method_entries(ms: Seq<ClassMember>, base: nat) -> Seq<(usize, bool)>
    decreases ms.len(),
{
    if ms.len() == 0 {
        Seq::empty()
    } else {
        let rest = method_entries(ms.drop_last(), base);
        match ms.last() {
            ClassMember::Method { is_public, .. } => rest.push(
                ((base + callable_members(ms.drop_last()).len()) as usize, is_public),
            ),
            _ => rest,
        }
    }
}

/// The place of the first entry for `op` in an operator index table, or -1.
pub open spec fn first_pair_index(v: Seq<(Operator, usize)>, op: Operator) -> int
    decreases v.len(),
{
    if v.len() == 0 {
        -1
    } else if v[0].0 == op {
        0
    } else {
        let r = first_pair_index(v.drop_first(), op);
        if r < 0 {
            -1
        } else {
            r + 1
        }
    }
}

/// The operators of an operator table, each with its prototype index.
pub open spec fn operator_pairs(ops: Seq<(Operator, usize, FunctionType)>) -> Seq<(Operator, usize)> {
    ops.map_values(|t: (Operator, usize, FunctionType)| (t.0, t.1))
}

/// The operator index table of a class with members `ms` whose first
/// callable member is compiled to prototype `base`: each overloaded
/// operator in the order of its first overload, with the prototype of its
/// last one.
pub open spec fn operator_entries(ms: Seq<ClassMember>, base: nat) -> Seq<(Operator, usize)>
    decreases ms.len(),
{
    if ms.len() == 0 {
        Seq::empty()
    } else {
        let rest = operator_entries(ms.drop_last(), base);
        match ms.last() {
            ClassMember::OperatorOverload { op, .. } => {
                let idx = (base + callable_members(ms.drop_last()).len()) as usize;
                let j = first_pair_index(rest, op);
                if j >= 0 {
                    rest.update(j, (op, idx))
                } else {
                    rest.push((op, idx))
                }
            },
            _ => rest,
        }
    }
}

/// The namespace locals of a class with members `ms` whose first callable
/// member is compiled to prototype `base`: each method's name, with its
/// prototype and whether it is public.
pub open spec fn method_namespace(ms: Seq<ClassMember>, base: nat) -> Map<Seq<char>, (usize, bool)>
    decreases ms.len(),
{
    if ms.len() == 0 {
        Map::empty()
    } else {
        let rest = method_namespace(ms.drop_last(), base);
        match ms.last() {
            ClassMember::Method { name, is_public, .. } => rest.insert(
                name@,
                ((base + callable_members(ms.drop_last()).len()) as usize, is_public),
            ),
            _ => rest,
        }
    }
}

/// Looking an operator up in a table and in its index pairs agrees.
pub proof fn lemma_first_pair_index(ops: Seq<(Operator, usize, FunctionType)>, op: Operator)
    ensures
        crate::ty::first_operator_index(ops, op) == first_pair_index(operator_pairs(ops), op),
        operator_pairs(ops).len() == ops.len(),
    decreases ops.len(),
{
    if ops.len() > 0 {
        lemma_first_pair_index(ops.drop_first(), op);
        assert(operator_pairs(ops).drop_first() =~= operator_pairs(ops.drop_first()));
    }
}

/// The arity of each method of `ms`: its parameters, and `self` where it
/// takes one.
pub open spec fn declared_method_arities(ms: Seq<ClassMember>) -> Map<Seq<char>, u8>
    decreases ms.len(),
{
    if ms.len() == 0 {
        Map::empty()
    } else {
        let rest = declared_method_arities(ms.drop_last());
        match ms.last() {
            ClassMember::Method { name, has_self, params, .. } => rest.insert(
                name@,
                (params@.len() + if has_self {
                    1int
                } else {
                    0int
                }) as u8,
            ),
            _ => rest,
        }
    }
}

/// No method of `ms` is named like the prototype of an operator.
pub open spec fn methods_not_operator_named(ms: Seq<ClassMember>) -> bool {
    forall|k: Seq<char>, o: Operator| #![trigger declared_methods(ms).contains_key(k), operator_name(o)]
        declared_methods(ms).contains_key(k) ==> k != "operator@"@ + operator_name(o)
}

/// The method tables of a class name the same methods, and those of a
/// prefix of its members are among them.
pub proof fn lemma_method_maps(ms: Seq<ClassMember>, base: nat, i: int)
    requires
        0 <= i <= ms.len(),
    ensures
        forall|k: Seq<char>| #[trigger] declared_method_arities(ms).contains_key(k) == declared_methods(ms).contains_key(k),
        forall|k: Seq<char>| #[trigger] method_namespace(ms, base).contains_key(k) == declared_methods(ms).contains_key(k),
        forall|k: Seq<char>| #[trigger] declared_methods(ms.take(i)).contains_key(k) ==> declared_methods(ms).contains_key(k),
    decreases ms.len(),
{
    if ms.len() > 0 {
        if i == ms.len() {
            assert(ms.take(i) =~= ms);
            lemma_method_maps(ms.drop_last(), base, i - 1);
        } else {
            assert(ms.drop_last().take(i) =~= ms.take(i));
            lemma_method_maps(ms.drop_last(), base, i);
        }
        assert forall|k: Seq<char>| #[trigger] declared_method_arities(ms).contains_key(k) == declared_methods(ms).contains_key(k) by {
            assert(declared_method_arities(ms.drop_last()).contains_key(k) == declared_methods(ms.drop_last()).contains_key(k));
        }
        assert forall|k: Seq<char>| #[trigger] method_namespace(ms, base).contains_key(k) == declared_methods(ms).contains_key(k) by {
            assert(method_namespace(ms.drop_last(), base).contains_key(k) == declared_methods(ms.drop_last()).contains_key(k));
        }
    } else {
        assert(ms.take(i) =~= ms);
    }
}

/// Names with a common beginning differ where their ends do.
pub proof fn lemma_concat_differs(a: Seq<char>, b: Seq<char>, c: Seq<char>)
    requires
        b != c,
    ensures
        a + b != a + c,
{
    if a + b == a + c {
        assert(b =~= (a + b).subrange(a.len() as int, (a + b).len() as int));
        assert(c =~= (a + c).subrange(a.len() as int, (a + c).len() as int));
    }
}

/// Members without two methods of one name have a prefix without them.
pub proof fn lemma_distinct_prefix(ms: Seq<ClassMember>, i: int)
    requires
        distinct_method_names(ms),
        0 <= i <= ms.len(),
    ensures
        distinct_method_names(ms.take(i)),
    decreases ms.len(),
{
    if i < ms.len() {
        assert(ms.drop_last().take(i) =~= ms.take(i));
        lemma_distinct_prefix(ms.drop_last(), i);
    } else {
        assert(ms.take(i) =~= ms);
    }
}

/// Every method and operator overload of `ms` has an empty body and fewer
/// than 255 parameters.
pub open spec fn bodiless_members(ms: Seq<ClassMember>) -> bool {
    forall|k: int| #![trigger ms[k]] 0 <= k < ms.len() ==> match ms[k] {
        ClassMember::Method { params, body, .. } => params@.len() < 255 && body@.len() == 0,
        ClassMember::OperatorOverload { params, body, .. } => params@.len() < 255 && body@.len() == 0,
        _ => true,
    }
}

/// The operators that an index table binds.
pub open spec fn indexed_operators(v: Seq<(Operator, usize)>) -> Set<Operator> {
    Set::new(|o: Operator| exists|j: int| 0 <= j < v.len() && (#[trigger] v[j]).0 == o)
}

/// Each method and operator of `ms` is among those it declares.
pub proof fn lemma_member_declared(ms: Seq<ClassMember>, i: int)
    requires
        0 <= i < ms.len(),
    ensures
        ms[i] matches ClassMember::Method { name, .. } ==> declared_methods(ms).contains_key(name@),
        ms[i] matches ClassMember::OperatorOverload { op, .. } ==> declared_operators(ms).contains(op),
    decreases ms.len(),
{
    if i < ms.len() - 1 {
        lemma_member_declared(ms.drop_last(), i);
        assert(ms.drop_last()[i] == ms[i]);
    }
}

/// The type of `e` where it is built from literals alone, with operators,
/// `&` and `move`: the type it has whatever the names in scope.
pub open spec fn closed_type(e: AstNodeV) -> Option<TypeV>
    decreases e,
{
    match e {
        AstNodeV::IntLiteral(_) => Some(TypeV::I32),
        AstNodeV::FloatLiteral(_) => Some(TypeV::F64),
        AstNodeV::StringLiteral(_) => Some(TypeV::String),
        AstNodeV::Borrowed(inner) => match closed_type(*inner) {
            Some(t) => Some(TypeV::Qualified { inner: Box::new(t), mutable: false, borrowed: true, moved: false }),
            None => None,
        },
        AstNodeV::Moved(inner) => match closed_type(*inner) {
            Some(t) => Some(TypeV::Qualified { inner: Box::new(t), mutable: false, borrowed: false, moved: true }),
            None => None,
        },
        AstNodeV::BinaryOperation { left, right, .. } => match closed_type(*left) {
            Some(lt) => match closed_type(*right) {
                Some(rt) => Some(
                    if lt is F64 || rt is F64 {
                        TypeV::F64
                    } else if lt is F32 || rt is F32 {
                        TypeV::F32
                    } else {
                        lt
                    },
                ),
                None => None,
            },
            None => None,
        },
        _ => None,
    }
}

/// An expression built from literals has the same, known, type wherever it
/// stands.
pub proof fn lemma_closed_type(c: LucyCompiler, e: AstNodeV, cls: Option<Seq<char>>)
    ensures
        closed_type(e) matches Some(t) ==> c.spec_infer(e, cls) == Some(t) && !(t is Unknown),
    decreases e,
{
    match e {
        AstNodeV::Borrowed(inner) => lemma_closed_type(c, *inner, cls),
        AstNodeV::Moved(inner) => lemma_closed_type(c, *inner, cls),
        AstNodeV::BinaryOperation { left, right, .. } => {
            lemma_closed_type(c, *left, cls);
            lemma_closed_type(c, *right, cls);
        },
        _ => {},
    }
}

/// Statement `k` of `body` is its first return of a value, and that value
/// is built from literals.
pub open spec fn first_closed_return(body: Seq<AstNode>, k: int) -> bool {
    &&& 0 <= k < body.len()
    &&& body[k] matches AstNode::ReturnStmt { value: Some(e) } && closed_type((*e)@) is Some
    &&& forall|j: int| 0 <= j < k ==> !(#[trigger] body[j] matches AstNode::ReturnStmt { value: Some(_) })
}

/// The value that return statement `s` gives back.
pub open spec fn returned_value(s: AstNode) -> AstNodeV {
    match s {
        AstNode::ReturnStmt { value: Some(e) } => (*e)@,
        _ => AstNodeV::SelfExpr,
    }
}

/// `n` copies of context `ctx`.
pub open spec fn ctx_copies(ctx: CompilingCtx, n: nat) -> Seq<CompilingCtx> {
    Seq::new(n, |k: int| ctx)
}

/// `states` runs through the statements `stmts` one after the other:
/// each step takes the compiler from one state to the next by compiling a
/// statement successfully, with the context that `ctxs` gives it.
pub open spec fn stmts_run(states: Seq<LucyCompiler>, ctxs: Seq<CompilingCtx>, stmts: Seq<AstNodeV>) -> bool {
    &&& states.len() == stmts.len() + 1
    &&& ctxs.len() == stmts.len()
    &&& forall|k: int| #![trigger stmts[k]] 0 <= k < stmts.len() ==> states[k].stmt_outcome(states[k + 1], stmts[k], ctxs[k], Ok(()))
}

/// `p` is the prototype named `name` compiled from the statements `body`
/// inside class `cls`: from a fresh prototype one level deeper than `depth`,
/// the statements are compiled one after the other, public where `public`
/// says, and the code and constants they leave are `p`'s.
pub open spec fn body_compiled(p: FunctionProto, body: Seq<AstNodeV>, name: Seq<char>, cls: Seq<char>, public: bool, depth: usize) -> bool {
    exists|states: Seq<LucyCompiler>, c: CompilingCtx| {
        &&& #[trigger] stmts_run(states, ctx_copies(c, body.len()), body)
        &&& states[0].cur().name@ == name && states[0].cur().code@.len() == 0 && states[0].cur().constants@.len() == 0
        &&& states[0].proto_depth == depth + 1
        &&& c.is_public == public && c.class_name() == Some(cls)
        &&& p.code == states.last().cur().code && p.constants == states.last().cur().constants
    }
}

/// The body of the last method of `ms` named `k`.
pub open spec fn last_method_body(ms: Seq<ClassMember>, k: Seq<char>) -> Seq<AstNodeV>
    decreases ms.len(),
{
    if ms.len() == 0 {
        Seq::empty()
    } else {
        match ms.last() {
            ClassMember::Method { name, body, .. } => if name@ == k {
                crate::syntax::view_asts(body@)
            } else {
                last_method_body(ms.drop_last(), k)
            },
            _ => last_method_body(ms.drop_last(), k),
        }
    }
}

/// The declaration that statement `s` makes, public or not.
pub open spec fn declaration_part(s: AstNodeV) -> AstNodeV {
    match s {
        AstNodeV::Public(inner) => *inner,
        _ => s,
    }
}

/// The exports of a scope that had `base` once the variable declarations
/// among `stmts` have taken the registers from `top` up, one each: a public
/// one (every one, where `public`) exports its name with its register.
pub open spec fn exports_after(base: Map<Seq<char>, usize>, stmts: Seq<AstNodeV>, top: nat, public: bool) -> Map<Seq<char>, usize>
    decreases stmts.len(),
{
    if stmts.len() == 0 {
        base
    } else {
        let rest = exports_after(base, stmts.drop_last(), top, public);
        match declaration_part(stmts.last()) {
            AstNodeV::VarDeclaration { binding: BindingNodeV::IdentifierBinding { name, .. }, .. } => if stmts.last() is Public
                || public {
                rest.insert(name, (top + stmts.len() - 1) as usize)
            } else {
                rest
            },
            _ => rest,
        }
    }
}

/// The value that the return statement `s` gives back.
pub open spec fn value_returned(s: AstNodeV) -> AstNodeV {
    match s {
        AstNodeV::ReturnStmt { value: Some(e) } => *e,
        _ => AstNodeV::SelfExpr,
    }
}

/// Field initialiser `f` sets, to a literal, a field of class `c` that has
/// an index and whose type takes the literal's.
pub open spec fn literal_field_fits(c: ClassType, f: (Seq<char>, AstNodeV)) -> bool {
    let j = crate::ty::first_field_index(c.fields@, f.0);
    &&& is_literal(f.1)
    &&& j >= 0
    &&& crate::typing::spec_assignable(c.fields@[j].1@, literal_type(f.1))
    &&& c.field_index_map@.contains_key(f.0)
}

/// The class that the type part `ty` of a class literal names inside class
/// `cls`, where it names one that exists and whose prototype is built.
pub open spec fn built_literal_class(c: LucyCompiler, ty: AstNodeV, cls: Option<Seq<char>>) -> Option<ClassType> {
    match literal_class_name(ty, cls) {
        Some(n) => match c.scopes.spec_lookup_type(n) {
            Some(t) => match t@ {
                TypeV::Class(id) => if id.0 < c.type_arena.classes@.len() && c.type_arena.classes@[id.0 as int].class_proto_constant is Some {
                    Some(c.type_arena.classes@[id.0 as int])
                } else {
                    None
                },
                _ => None,
            },
            None => None,
        },
        None => None,
    }
}

/// `e` is arithmetic on number literals: an integer or float literal, or an
/// operator with an opcode of its own applied to two such expressions.
pub open spec fn numeric_expr(e: AstNodeV) -> bool
    decreases e,
{
    match e {
        AstNodeV::IntLiteral(_) => true,
        AstNodeV::FloatLiteral(_) => true,
        AstNodeV::BinaryOperation { op, left, right } => binary_opcode(op, false) is Some && numeric_expr(*left)
            && numeric_expr(*right),
        _ => false,
    }
}

/// The registers that compiling the numeric expression `e` takes from the
/// register top `top` up all exist: each operation takes two, above those
/// of the operations around it.
pub open spec fn numeric_fits(e: AstNodeV, top: nat) -> bool
    decreases e,
{
    match e {
        AstNodeV::BinaryOperation { left, right, .. } => top + 1 < usize::MAX && numeric_fits(*left, top + 2) && numeric_fits(
            *right,
            top + 2,
        ),
        _ => true,
    }
}

/// The name of the prototype that callable member `m` of class `c` is
/// compiled to.
pub open spec fn member_proto_name(c: Seq<char>, m: ClassMember) -> Seq<char> {
    match m {
        ClassMember::Method { name, .. } => c + "::"@ + name@,
        ClassMember::OperatorOverload { op, .. } => c + "::operator@"@ + operator_name(op),
        _ => c,
    }
}

/// The register top while the object of a member access into `dst` is
/// compiled, `top` being the first free register before.
pub open spec fn object_top(top: usize, dst: usize) -> usize {
    if top <= dst + 1 {
        (dst + 2) as usize
    } else {
        (top + 1) as usize
    }
}

/// A class's field table as names, types and visibilities.
pub open spec fn view_field_table(fs: Seq<(String, Type, bool)>) -> Seq<(Seq<char>, TypeV, bool)> {
    fs.map_values(|f: (String, Type, bool)| (f.0@, f.1@, f.2))
}

/// The constant table `cs` once `c` has a slot in it.
pub open spec fn with_constant(cs: Seq<ConstantValue>, c: ConstantValueV) -> Seq<ConstantValueV> {
    if first_constant_index(cs, c) >= 0 {
        view_constants(cs)
    } else {
        view_constants(cs).push(c)
    }
}

/// The slot of the upvalue named `name` in `us`: the first one of that name,
/// or a new one at the end.
pub open spec fn upvalue_slot(us: Seq<UpvalueDescriptor>, name: Seq<char>) -> int {
    if first_upvalue_index(us, name) >= 0 {
        first_upvalue_index(us, name)
    } else {
        us.len() as int
    }
}

/// `ins` stores a register into a field of the object in register `obj`.
pub open spec fn sets_field(ins: u32, obj: usize) -> bool {
    exists|val: usize, f: usize| #[trigger] instr_abc(Opcode::SETFIELD, obj, val, f) == ins
}

/// `ins` loads a constant into register `reg`.
pub open spec fn loads_constant(ins: u32, reg: usize) -> bool {
    exists|k: usize| #[trigger] instr_abx(Opcode::LOADK, reg, k) == ins
}

/// The statements end with the declaration of a function named `main`.
pub open spec fn ends_declaring_main(stmts: Seq<AstNodeV>) -> bool {
    stmts.len() > 0 && (stmts.last() matches AstNodeV::FunctionDeclaration { name, .. } && name == "main"@)
}

/// The code ends by loading a function into a register and calling it with
/// no argument and no result.
pub open spec fn ends_calling_loaded(code: Seq<u32>) -> bool {
    code.len() >= 2 && exists|reg: usize| #[trigger] instr_abc(Opcode::CALL, reg, 0, 1) == code.last()
        && loads_constant(code[code.len() - 2], reg)
}

/// `name` resolves to a local that holds a native function.
pub open spec fn binds_native(s: ScopeStack, name: Seq<char>) -> bool {
    s.spec_resolve(name) matches Some((l, _)) && (crate::scope::view_backing(l.backing) matches Some(
        ConstantValueV::NativeFunctionProto(_),
    ))
}

/// What a `use` taking `used` from namespace `ns` binds: each alias, with
/// the index of the native function that its name has in `ns`.
pub open spec fn use_entries(ns: Namespace, used: Seq<(Seq<char>, Seq<char>)>) -> Seq<(Seq<char>, usize)> {
    used.map_values(|u: (Seq<char>, Seq<char>)| (u.1, ns.locals@[u.0].0))
}

/// The debug name of an operator, as it appears in messages and in the names
/// of operator prototypes.
pub open spec fn operator_name(op: Operator) -> Seq<char> {
    match op {
        Operator::Add => "Add"@,
        Operator::Sub => "Sub"@,
        Operator::Mul => "Mul"@,
        Operator::Div => "Div"@,
        Operator::Mod => "Mod"@,
        Operator::Pow => "Pow"@,
        Operator::BLShift => "BLShift"@,
        Operator::BRShift => "BRShift"@,
        Operator::LAnd => "LAnd"@,
        Operator::LOr => "LOr"@,
        Operator::BAnd => "BAnd"@,
        Operator::BOr => "BOr"@,
        Operator::Eq => "Eq"@,
        Operator::NEq => "NEq"@,
        Operator::Lt => "Lt"@,
        Operator::Gt => "Gt"@,
        Operator::Le => "Le"@,
        Operator::Ge => "Ge"@,
        Operator::Neg => "Neg"@,
        Operator::LNot => "LNot"@,
        Operator::BNot => "BNot"@,
    }
}

pub fn operator_text(op: Operator) -> (s: &'static str)
    ensures
        s@ == operator_name(op),
{
    match op {
        Operator::Add => "Add",
        Operator::Sub => "Sub",
        Operator::Mul => "Mul",
        Operator::Div => "Div",
        Operator::Mod => "Mod",
        Operator::Pow => "Pow",
        Operator::BLShift => "BLShift",
        Operator::BRShift => "BRShift",
        Operator::LAnd => "LAnd",
        Operator::LOr => "LOr",
        Operator::BAnd => "BAnd",
        Operator::BOr => "BOr",
        Operator::Eq => "Eq",
        Operator::NEq => "NEq",
        Operator::Lt => "Lt",
        Operator::Gt => "Gt",
        Operator::Le => "Le",
        Operator::Ge => "Ge",
        Operator::Neg => "Neg",
        Operator::LNot => "LNot",
        Operator::BNot => "BNot",
    }
}

/// The instruction for a binary operator: the overloaded form when a class
/// overloads it; `None` for an operator that has no instruction.
pub open spec fn binary_opcode(op: Operator, overloaded: bool) -> Option<Opcode> {
    if overloaded {
        match op {
            Operator::Add => Some(Opcode::ADDOV),
            Operator::Sub => Some(Opcode::SUBOV),
            Operator::Mul => Some(Opcode::MULOV),
            Operator::Div => Some(Opcode::DIVOV),
            _ => None,
        }
    } else {
        match op {
            Operator::Add => Some(Opcode::ADD),
            Operator::Sub => Some(Opcode::SUB),
            Operator::Mul => Some(Opcode::MUL),
            Operator::Div => Some(Opcode::DIV),
            Operator::Mod => Some(Opcode::MOD),
            Operator::Pow => Some(Opcode::POW),
            Operator::BLShift => Some(Opcode::BLSHIFT),
            Operator::BRShift => Some(Opcode::BRSHIFT),
            Operator::BAnd => Some(Opcode::BAND),
            Operator::BOr => Some(Opcode::BOR),
            _ => None,
        }
    }
}

pub fn select_binary_opcode(op: Operator, overloaded: bool) -> (r: Option<Opcode>)
    ensures
        r == binary_opcode(op, overloaded),
{
    if overloaded {
        match op {
            Operator::Add => Some(Opcode::ADDOV),
            Operator::Sub => Some(Opcode::SUBOV),
            Operator::Mul => Some(Opcode::MULOV),
            Operator::Div => Some(Opcode::DIVOV),
            _ => None,
        }
    } else {
        match op {
            Operator::Add => Some(Opcode::ADD),
            Operator::Sub => Some(Opcode::SUB),
            Operator::Mul => Some(Opcode::MUL),
            Operator::Div => Some(Opcode::DIV),
            Operator::Mod => Some(Opcode::MOD),
            Operator::Pow => Some(Opcode::POW),
            Operator::BLShift => Some(Opcode::BLSHIFT),
            Operator::BRShift => Some(Opcode::BRSHIFT),
            Operator::BAnd => Some(Opcode::BAND),
            Operator::BOr => Some(Opcode::BOR),
            _ => None,
        }
    }
}

/// An instruction with operands `a`, `b`, `c`.
pub open spec fn instr_abc(op: Opcode, a: usize, b: usize, c: usize) -> u32 {
    spec_pack_abc(spec_opcode_number(op), a as u32, b as u32, c as u32)
}

/// An instruction with operands `a` and `bx`.
pub open spec fn instr_abx(op: Opcode, a: usize, bx: usize) -> u32 {
    spec_pack_abx(spec_opcode_number(op), a as u32, bx as u32)
}

impl LucyCompiler {
    /// Everything is as in `prior` but the code of the current prototype.
    pub open spec fn only_code_changed(self, prior: LucyCompiler) -> bool {
        &&& self.proto_stack@.len() == prior.proto_stack@.len()
        &&& self.proto_stack@.drop_last() == prior.proto_stack@.drop_last()
        &&& self.cur().name == prior.cur().name
        &&& self.cur().arity == prior.cur().arity
        &&& self.cur().max_regs == prior.cur().max_regs
        &&& self.cur().saved_reg_top == prior.cur().saved_reg_top
        &&& self.cur().constants == prior.cur().constants
        &&& self.cur().protos == prior.cur().protos
        &&& self.cur().upvalues == prior.cur().upvalues
        &&& self.scopes == prior.scopes
        &&& self.reg_alloc == prior.reg_alloc
        &&& self.proto_depth == prior.proto_depth
        &&& self.native_protos == prior.native_protos
        &&& self.native_namespaces == prior.native_namespaces
        &&& self.file_namespaces == prior.file_namespaces
        &&& self.type_arena == prior.type_arena
    }

    /// `self` is `prior` after one more instruction, `ins`.
    pub open spec fn emitted(self, prior: LucyCompiler, ins: u32) -> bool {
        &&& self.only_code_changed(prior)
        &&& self.cur().code@ == prior.cur().code@.push(ins)
    }

    /// `self` is `prior` after loading constant `c` into register `dst`: the
    /// constant gets its slot and one `LOADK` is emitted.
    pub open spec fn loaded_constant(self, prior: LucyCompiler, dst: usize, c: ConstantValueV) -> bool {
        &&& self.proto_stack@.len() == prior.proto_stack@.len()
        &&& self.proto_stack@.drop_last() == prior.proto_stack@.drop_last()
        &&& self.cur().name == prior.cur().name
        &&& self.cur().arity == prior.cur().arity
        &&& self.cur().saved_reg_top == prior.cur().saved_reg_top
        &&& self.cur().protos == prior.cur().protos
        &&& self.cur().upvalues == prior.cur().upvalues
        &&& is_prefix(prior.cur().constants@, self.cur().constants@)
        &&& view_constants(self.cur().constants@) == with_constant(prior.cur().constants@, c)
        &&& self.cur().code@ == prior.cur().code@.push(
            instr_abx(Opcode::LOADK, dst, const_slot(prior.cur().constants@, c) as usize),
        )
        &&& self.scopes == prior.scopes
        &&& self.reg_alloc == prior.reg_alloc
        &&& self.proto_depth == prior.proto_depth
        &&& self.native_protos == prior.native_protos
        &&& self.native_namespaces == prior.native_namespaces
        &&& self.file_namespaces == prior.file_namespaces
        &&& self.type_arena == prior.type_arena
    }

    /// `self` is `prior` after reading the variable `name` of an enclosing
    /// function, of type `ty` and held there in register `reg`, into `dst`
    /// through an upvalue.
    pub open spec fn read_upvalue(self, prior: LucyCompiler, dst: usize, name: Seq<char>, reg: usize, ty: TypeV) -> bool {
        let us = prior.cur().upvalues@;
        &&& self.proto_stack@.len() == prior.proto_stack@.len()
        &&& self.proto_stack@.drop_last() == prior.proto_stack@.drop_last()
        &&& self.cur().name == prior.cur().name
        &&& self.cur().arity == prior.cur().arity
        &&& self.cur().saved_reg_top == prior.cur().saved_reg_top
        &&& self.cur().constants == prior.cur().constants
        &&& self.cur().protos == prior.cur().protos
        &&& is_prefix(us, self.cur().upvalues@)
        &&& (first_upvalue_index(us, name) >= 0 ==> self.cur().upvalues@ == us)
        &&& (first_upvalue_index(us, name) < 0 ==> self.cur().upvalues@.len() == us.len() + 1
            && self.cur().upvalues@.last().name@ == name
            && self.cur().upvalues@.last().source == UpvalueSource::ParentRegister(reg)
            && self.cur().upvalues@.last().ty@ == ty)
        &&& self.cur().code@ == prior.cur().code@.push(
            instr_abc(Opcode::GETUPVAL, dst, upvalue_slot(us, name) as usize, 0),
        )
        &&& self.scopes == prior.scopes
        &&& self.reg_alloc == prior.reg_alloc
        &&& self.proto_depth == prior.proto_depth
        &&& self.native_protos == prior.native_protos
        &&& self.native_namespaces == prior.native_namespaces
        &&& self.file_namespaces == prior.file_namespaces
        &&& self.type_arena == prior.type_arena
    }

    /// What compiling identifier `name` into register `dst` does, from
    /// `self`, with the outcome `r` and the compiler `post` after it.
    pub open spec fn identifier_outcome(self, name: Seq<char>, dst: usize, post: LucyCompiler, r: Result<(), CompileError>) -> bool {
        match self.scopes.spec_resolve(name) {
            None => r matches Err(CompileError::TypeError(m)) && m@ == "undefined variable '"@ + name + "'"@,
            Some((l, depth)) => if depth == self.proto_depth {
                if l.moved {
                    r matches Err(CompileError::TypeError(m)) && m@ == "use of moved variable '"@ + name + "'"@
                } else if l.reg != dst {
                    r is Ok && post.emitted(self, instr_abc(Opcode::MOVE, dst, l.reg, 0))
                } else {
                    r is Ok && post == self
                }
            } else {
                match l.backing {
                    Some(cv) => r is Ok && post.loaded_constant(self, dst, cv@),
                    None => r is Ok && post.read_upvalue(self, dst, name, l.reg, l.ty@),
                }
            },
        }
    }

    /// What compiling `self` into register `dst` does.
    pub open spec fn self_outcome(self, dst: usize, post: LucyCompiler, r: Result<(), CompileError>) -> bool {
        match self.scopes.spec_resolve("self"@) {
            Some((l, depth)) => if depth == self.proto_depth {
                if l.reg != dst {
                    r is Ok && post.emitted(self, instr_abc(Opcode::MOVE, dst, l.reg, 0))
                } else {
                    r is Ok && post == self
                }
            } else {
                r matches Err(CompileError::TypeError(m)) && m@ == "'self' used outside of a method"@
            },
            None => r matches Err(CompileError::TypeError(m)) && m@ == "'self' used outside of a method"@,
        }
    }

    /// What compiling `move name` into register `dst` does: only a variable
    /// of the function being compiled that is not moved yet can be moved;
    /// its value goes to `dst` and the variable is marked moved.
    pub open spec fn moved_outcome(self, name: Seq<char>, dst: usize, post: LucyCompiler, r: Result<(), CompileError>) -> bool {
        match self.scopes.spec_resolve(name) {
            None => r matches Err(CompileError::TypeError(m)) && m@ == "undefined variable '"@ + name + "'"@,
            Some((l, depth)) => if depth != self.proto_depth {
                r matches Err(CompileError::TypeError(m)) && m@ == "cannot move '"@ + name + "' captured from outer scope"@
            } else if l.moved {
                r matches Err(CompileError::TypeError(m)) && m@ == "use of already-moved variable '"@ + name + "'"@
            } else {
                &&& r is Ok
                &&& post.cur().code@ == (if l.reg != dst {
                    self.cur().code@.push(instr_abc(Opcode::MOVE, dst, l.reg, 0))
                } else {
                    self.cur().code@
                })
                &&& post.scopes.spec_resolve(name) == Some((Local { moved: true, ..l }, depth))
                &&& forall|other: Seq<char>| other != name ==> #[trigger] post.scopes.spec_resolve(other)
                    == self.scopes.spec_resolve(other)
                &&& post.reg_alloc == self.reg_alloc
                &&& post.proto_depth == self.proto_depth
            },
        }
    }

    /// What compiling `ns::m` into register `dst` does, inside class `cls`:
    /// `m` must be a name of namespace `ns`, public or read from inside the
    /// class of that name; its value is then read from the variable named
    /// `ns::m`, a local of the function being compiled or a constant of an
    /// enclosing one.
    pub open spec fn namespace_index_outcome(
        self,
        ns: Seq<char>,
        m: Seq<char>,
        cls: Option<Seq<char>>,
        dst: usize,
        post: LucyCompiler,
        r: Result<(), CompileError>,
    ) -> bool {
        match self.scopes.spec_namespace(ns) {
            None => r matches Err(CompileError::Unsupported(_)),
            Some(n) => if !n.locals@.contains_key(m) {
                r matches Err(CompileError::Unsupported(_))
            } else if !n.locals@[m].1 && cls != Some(ns) {
                r matches Err(CompileError::TypeError(_))
            } else {
                match self.scopes.spec_resolve(ns + "::"@ + m) {
                    Some((l, depth)) => if depth == self.proto_depth {
                        if l.reg != dst {
                            r is Ok && post.emitted(self, instr_abc(Opcode::MOVE, dst, l.reg, 0))
                        } else {
                            r is Ok && post == self
                        }
                    } else {
                        match l.backing {
                            Some(cv) => r is Ok && post.loaded_constant(self, dst, cv@),
                            None => r matches Err(CompileError::Unsupported(_)),
                        }
                    },
                    None => r matches Err(CompileError::Unsupported(_)),
                }
            },
        }
    }

    /// The return type that annotation `t` declares inside class `cls`:
    /// `Self` stands for the class's type (`None` when the class has none),
    /// and for nothing outside a class.
    pub open spec fn declared_return(self, t: crate::syntax::TypeNodeV, cls: Option<Seq<char>>) -> Option<TypeV> {
        let rt = self.spec_compile_type(t);
        if rt == TypeV::TypeVar("Self"@) {
            match cls {
                Some(c) => match self.scopes.spec_lookup_type(c) {
                    Some(found) => Some(found@),
                    None => None,
                },
                None => Some(TypeV::Unknown),
            }
        } else {
            Some(rt)
        }
    }

    /// The fields that class members `ms` declare, in order: each one's
    /// name, type (its annotation as compiled here) and whether it is public.
    pub open spec fn declared_fields(self, ms: Seq<ClassMember>) -> Seq<(Seq<char>, TypeV, bool)>
        decreases ms.len(),
    {
        if ms.len() == 0 {
            Seq::empty()
        } else {
            let rest = self.declared_fields(ms.drop_last());
            match ms.last() {
                ClassMember::Field { name, ty, is_public } => rest.push((name@, self.spec_compile_type(ty@), is_public)),
                _ => rest,
            }
        }
    }

    /// How compiling a class literal of type part `ty` into register `dst`
    /// starts, inside class `cls`: the class it names must be a class with
    /// its prototype built, and the first instruction emitted creates an
    /// instance of that prototype in `dst`.
    pub open spec fn class_literal_start(
        self,
        ty: AstNodeV,
        cls: Option<Seq<char>>,
        dst: usize,
        post: LucyCompiler,
        r: Result<(), CompileError>,
    ) -> bool {
        match literal_class_name(ty, cls) {
            None => r is Err,
            Some(n) => match self.scopes.spec_lookup_type(n) {
                Some(t) => match t@ {
                    TypeV::Class(id) => if id.0 >= self.type_arena.classes@.len() {
                        r matches Err(CompileError::Unsupported(_))
                    } else {
                        match self.type_arena.classes@[id.0 as int].class_proto_constant {
                            Some(cv) => r is Ok ==> post.cur().code@.len() > self.cur().code@.len()
                                && post.cur().code@[self.cur().code@.len() as int] == instr_abx(
                                Opcode::NEWCLASS,
                                dst,
                                const_slot(self.cur().constants@, cv@) as usize,
                            ),
                            None => r matches Err(CompileError::Unsupported(_)),
                        }
                    },
                    _ => r matches Err(CompileError::Unsupported(_)),
                },
                None => r matches Err(CompileError::Unsupported(_)),
            },
        }
    }

    /// What a successful access of member `name` of an object of type `t`,
    /// held in register `obj`, into register `dst`, inside class `cls`, has
    /// emitted last, `self` being the compiler after it. On an object of a
    /// class, a field (public, or read inside that class) is read with
    /// `GETFIELD` at its index; otherwise a method (public, or read inside
    /// that class) that takes the instance first is fetched with `GETMETHOD`
    /// at its method index. On an object of another type nothing is said.
    pub open spec fn member_access_done(
        self,
        t: Option<TypeV>,
        name: Seq<char>,
        cls: Option<Seq<char>>,
        dst: usize,
        obj: usize,
    ) -> bool {
        match t {
            Some(ot) => match crate::typing::spec_resolve_type(ot) {
                Some(TypeV::Class(id)) => id.0 < self.type_arena.classes@.len() && {
                    let c = self.type_arena.classes@[id.0 as int];
                    let inside = cls == Some(c.name@);
                    let fi = crate::ty::first_field_index(c.fields@, name);
                    &&& self.cur().code@.len() > 0
                    &&& if fi >= 0 {
                        &&& (c.fields@[fi].2 || inside)
                        &&& c.field_index_map@.contains_key(name)
                        &&& self.cur().code@.last() == instr_abc(Opcode::GETFIELD, dst, obj, c.field_index_map@[name])
                    } else {
                        &&& c.methods@.contains_key(name)
                        &&& (c.methods@[name].3 || inside)
                        &&& c.methods@[name].2.params@.len() > 0
                        &&& c.methods@[name].2.params@[0] is Class
                        &&& self.cur().code@.last() == instr_abc(Opcode::GETMETHOD, dst, obj, c.methods@[name].0)
                    }
                },
                _ => true,
            },
            None => true,
        }
    }

    /// Argument `arg` may be passed for a parameter of type `param`: a bare
    /// variable is refused for a parameter that takes ownership, and for a
    /// borrowed parameter unless the variable is itself a borrow.
    pub open spec fn arg_passes(self, arg: AstNodeV, param: TypeV, cls: Option<Seq<char>>) -> bool {
        match param {
            TypeV::Qualified { borrowed, moved, .. } => if moved {
                !(arg is Identifier)
            } else if borrowed {
                arg is Identifier ==> (self.spec_infer(arg, cls) matches Some(TypeV::Qualified { borrowed: b, .. }) && b)
            } else {
                true
            },
            _ => true,
        }
    }

    /// The arguments `args` of a call of `callee` pass for its parameters,
    /// when the callee has a function type; a method call's first parameter
    /// is the instance, which is not among `args`.
    pub open spec fn call_args_pass(self, callee: AstNodeV, args: Seq<AstNodeV>, cls: Option<Seq<char>>) -> bool {
        match self.spec_infer(callee, cls) {
            Some(TypeV::Function(ft)) => {
                let ps = argument_params(ft.params, callee is DotIndex);
                forall|j: int| 0 <= j < args.len() && j < ps.len() ==> #[trigger] self.arg_passes(args[j], ps[j], cls)
            },
            _ => true,
        }
    }

    /// Class `id` overloads operator `op`.
    pub open spec fn class_has_operator(self, id: crate::ty::TypeId, op: Operator) -> bool {
        id.0 < self.type_arena.classes@.len() && crate::ty::first_operator_index(
            self.type_arena.classes@[id.0 as int].operators@,
            op,
        ) >= 0
    }

    /// `left op right` uses the overload of a class: that of the left
    /// operand's class if it is of one, else that of the right operand's.
    pub open spec fn binary_overloaded(self, left: AstNodeV, right: AstNodeV, op: Operator, cls: Option<Seq<char>>) -> bool {
        match (self.spec_infer(left, cls), self.spec_infer(right, cls)) {
            (Some(lt), Some(rt)) => match Type::spec_inner(lt) {
                TypeV::Class(id) => self.class_has_operator(id, op),
                _ => match Type::spec_inner(rt) {
                    TypeV::Class(id) => self.class_has_operator(id, op),
                    _ => false,
                },
            },
            _ => false,
        }
    }

    /// What returning the value of `e` does, from `self`, under context
    /// `ctx`, with the outcome `r` and the compiler `post` after it: the
    /// value's type must be assignable to the declared return type (any, if
    /// none is declared); the value is computed into the first free register
    /// and returned from there.
    pub open spec fn returned_value(self, e: AstNodeV, ctx: &CompilingCtx, post: LucyCompiler, r: Result<(), CompileError>) -> bool {
        &&& r is Ok ==> (self.spec_infer(e, ctx.class_name()) matches Some(t) && crate::typing::spec_assignable(
            ctx.return_type@,
            t,
        ))
        &&& r is Ok ==> post.cur().code@.len() > 0 && post.cur().code@.last() == instr_abc(
            Opcode::RET,
            self.reg_alloc.current_top,
            1,
            0,
        )
        &&& self.reg_alloc.current_top < usize::MAX ==> (self.spec_infer(e, ctx.class_name()) matches Some(t) ==> (
            !crate::typing::spec_assignable(ctx.return_type@, t) ==> (r matches Err(CompileError::TypeError(m)) && m@
            == crate::typing::assignable_message("return statement"@, ctx.return_type@, t))))
        &&& numeric_expr(e) ==> (r is Ok <==> self.reg_alloc.current_top < usize::MAX && numeric_fits(
            e,
            (self.reg_alloc.current_top + 1) as nat,
        ) && (self.spec_infer(e, ctx.class_name()) matches Some(t) && crate::typing::spec_assignable(ctx.return_type@, t)))
        &&& numeric_expr(e) ==> (r is Ok ==> exists|s1: LucyCompiler| #[trigger] s1.compiled_numeric(
            self.with_top((self.reg_alloc.current_top + 1) as usize),
            e,
            self.reg_alloc.current_top,
        ) && post.emitted_at_top(s1, instr_abc(Opcode::RET, self.reg_alloc.current_top, 1, 0), self.reg_alloc.current_top))
    }

    /// The path `base` of a `use` names a namespace that has every name the
    /// statement takes from it (the first of each pair in `used`).
    pub open spec fn use_names_found(self, base: AstNodeV, used: Seq<(Seq<char>, Seq<char>)>) -> bool {
        spec_namespace_path(self.scopes, base) matches Some(Some(ns)) && forall|k: int|
            0 <= k < used.len() ==> #[trigger] ns.locals@.contains_key(used[k].0)
    }

    /// `e` is a literal, or a variable that can be read here: one that is
    /// bound and, if it belongs to the function being compiled, not moved.
    /// Compiling such an operand cannot fail and only emits code.
    pub open spec fn plain_operand(self, e: AstNodeV) -> bool {
        match e {
            AstNodeV::IntLiteral(_) => true,
            AstNodeV::FloatLiteral(_) => true,
            AstNodeV::StringLiteral(_) => true,
            AstNodeV::Identifier(n) => match self.scopes.spec_resolve(n) {
                Some((l, depth)) => depth != self.proto_depth || !l.moved,
                None => false,
            },
            _ => false,
        }
    }

    /// The type of `e` is known, and it is no class instance (nor a
    /// qualified one).
    pub open spec fn non_class_operand(self, e: AstNodeV, cls: Option<Seq<char>>) -> bool {
        self.spec_infer(e, cls) matches Some(t) && !(Type::spec_inner(t) is Class)
    }

    /// Member `name` can be read from an object of type `t` inside class
    /// `cls`: the type is known and consistent; on an object of a class, the
    /// class exists and has a field of that name (public, or read inside
    /// that class, and with an index), or else a method of that name (public
    /// or read inside that class) that takes the instance first.
    pub open spec fn member_readable(self, t: Option<TypeV>, name: Seq<char>, cls: Option<Seq<char>>) -> bool {
        match t {
            Some(ot) => match crate::typing::spec_resolve_type(ot) {
                Some(TypeV::Class(id)) => id.0 < self.type_arena.classes@.len() && {
                    let c = self.type_arena.classes@[id.0 as int];
                    let inside = cls == Some(c.name@);
                    let fi = crate::ty::first_field_index(c.fields@, name);
                    if fi >= 0 {
                        (c.fields@[fi].2 || inside) && c.field_index_map@.contains_key(name)
                    } else {
                        &&& c.methods@.contains_key(name)
                        &&& (c.methods@[name].3 || inside)
                        &&& c.methods@[name].2.params@.len() > 0
                        &&& c.methods@[name].2.params@[0] is Class
                    }
                },
                Some(_) => true,
                None => false,
            },
            None => false,
        }
    }

    /// Every parameter of `params` is a plain name with a type annotation
    /// that stands for a known type, but for a parameter named `self`, whose
    /// type may be left to the compiler.
    pub open spec fn params_typed(self, params: Seq<BindingNode>) -> bool {
        forall|j: int| 0 <= j < params.len() ==> (#[trigger] params[j] matches BindingNode::IdentifierBinding { name, ty }
            && (!(self.spec_compile_type(ty@) is Unknown) || name@ == "self"@))
    }

    /// The code of the function being compiled once an empty program has
    /// been compiled from `self`: a program ends by calling `main` when that
    /// name is a variable of the function being compiled.
    pub open spec fn empty_program_code(self) -> Seq<u32> {
        match self.scopes.spec_resolve("main"@) {
            Some((l, depth)) => if depth == self.proto_depth {
                self.cur().code@.push(instr_abc(Opcode::CALL, l.reg, 0, 1))
            } else {
                self.cur().code@
            },
            None => self.cur().code@,
        }
    }

    /// This compiler with its register top set to `top`.
    pub open spec fn with_top(self, top: usize) -> LucyCompiler {
        LucyCompiler { reg_alloc: RegisterAllocator { current_top: top }, ..self }
    }

    /// `self` is `prior` after compiling the plain operand `e` into register
    /// `dst`: a literal is loaded from the constant table, a variable is read
    /// as `identifier_outcome` says.
    pub open spec fn compiled_plain(self, prior: LucyCompiler, e: AstNodeV, dst: usize) -> bool {
        match e {
            AstNodeV::IntLiteral(n) => self.loaded_constant(prior, dst, ConstantValueV::I32(n)),
            AstNodeV::FloatLiteral(f) => self.loaded_constant(prior, dst, ConstantValueV::F64(f)),
            AstNodeV::StringLiteral(t) => self.loaded_constant(prior, dst, ConstantValueV::String(t)),
            AstNodeV::Identifier(n) => prior.identifier_outcome(n, dst, self, Ok(())),
            _ => false,
        }
    }

    /// From `self`, two registers are taken at the register top, giving `s1`
    /// once the plain operand `left` is compiled into the first and `s2` once
    /// the plain operand `right` is compiled into the second.
    pub open spec fn operands_compiled(self, s1: LucyCompiler, s2: LucyCompiler, left: AstNodeV, right: AstNodeV) -> bool {
        let top = self.reg_alloc.current_top;
        &&& s1.compiled_plain(self.with_top((top + 2) as usize), left, top)
        &&& s2.compiled_plain(s1, right, (top + 1) as usize)
    }

    /// `self` is `prior` after compiling the numeric expression `e` into
    /// register `dst`: a literal is loaded from the constant table; an
    /// operation, with `t` the register top, compiles its left operand into
    /// `t` and then its right one into `t + 1` (the top at `t + 2` for
    /// both), applies its opcode to them into `dst` and gives the top back
    /// to `t`.
    pub open spec fn compiled_numeric(self, prior: LucyCompiler, e: AstNodeV, dst: usize) -> bool
        decreases e,
    {
        match e {
            AstNodeV::BinaryOperation { op, left, right } => {
                let t = prior.reg_alloc.current_top;
                binary_opcode(op, false) matches Some(o) && exists|s1: LucyCompiler, s2: LucyCompiler|
                    #![trigger s1.cur(), self.emitted_at_top(s2, instr_abc(o, dst, t, (t + 1) as usize), t)]
                    s1.compiled_numeric(prior.with_top((t + 2) as usize), *left, t) && s2.compiled_numeric(
                    s1,
                    *right,
                    (t + 1) as usize,
                ) && self.emitted_at_top(s2, instr_abc(o, dst, t, (t + 1) as usize), t)
            },
            _ => self.compiled_plain(prior, e, dst),
        }
    }

    /// Arithmetic on number literals has type `i32` or `f64`.
    pub proof fn lemma_numeric_type(c: LucyCompiler, e: AstNodeV, cls: Option<Seq<char>>)
        ensures
            numeric_expr(e) ==> (c.spec_infer(e, cls) matches Some(t) && (t is I32 || t is F64)),
        decreases e,
    {
        if let AstNodeV::BinaryOperation { left, right, .. } = e {
            Self::lemma_numeric_type(c, *left, cls);
            Self::lemma_numeric_type(c, *right, cls);
        }
    }

    /// `self` is `prior` after loading the literals `args`, one after the
    /// other, into the registers from `top` up, each taken at the register
    /// top before it is loaded.
    pub open spec fn literals_loaded(self, prior: LucyCompiler, args: Seq<AstNodeV>, top: usize) -> bool
        decreases args.len(),
    {
        if args.len() == 0 {
            self == prior
        } else {
            exists|mid: LucyCompiler|
                #![trigger mid.cur()]
                mid.literals_loaded(prior, args.drop_last(), top) && self.compiled_plain(
                    mid.with_top((top + args.len()) as usize),
                    args.last(),
                    (top + args.len() - 1) as usize,
                )
        }
    }

    /// `self` is `prior` after storing the literal initialisers `fields`,
    /// one after the other, into the object in register `dst`, of class `c`:
    /// each literal is loaded into the register top `top`, taken for it, and
    /// stored with `SETFIELD` at its field's index, and the register is then
    /// given back.
    pub open spec fn literal_fields_set(
        self,
        prior: LucyCompiler,
        fields: Seq<(Seq<char>, AstNodeV)>,
        dst: usize,
        top: usize,
        c: ClassType,
    ) -> bool
        decreases fields.len(),
    {
        if fields.len() == 0 {
            self == prior
        } else {
            exists|mid: LucyCompiler, loaded: LucyCompiler|
                #![trigger mid.cur(), loaded.cur()]
                mid.literal_fields_set(prior, fields.drop_last(), dst, top, c) && loaded.compiled_plain(
                    mid.with_top((top + 1) as usize),
                    fields.last().1,
                    top,
                ) && self.emitted_at_top(
                    loaded,
                    instr_abc(Opcode::SETFIELD, dst, top, c.field_index_map@[fields.last().0]),
                    top,
                )
        }
    }

    /// From `self`, one register is taken at the register top, giving `s1`
    /// once the plain operand `e` is compiled into it.
    pub open spec fn operand_compiled(self, s1: LucyCompiler, e: AstNodeV) -> bool {
        s1.compiled_plain(self.with_top((self.reg_alloc.current_top + 1) as usize), e, self.reg_alloc.current_top)
    }

    /// From `self`, the object register of a member access into `dst` is
    /// taken, giving `s1` once the plain operand `e` is compiled into it.
    pub open spec fn object_compiled(self, s1: LucyCompiler, e: AstNodeV, dst: usize) -> bool {
        s1.compiled_plain(
            self.with_top(object_top(self.reg_alloc.current_top, dst)),
            e,
            object_register(self.reg_alloc.current_top, dst),
        )
    }

    /// `self` is `prior` after one more instruction `ins`, with its register
    /// top set back to `top`.
    pub open spec fn emitted_at_top(self, prior: LucyCompiler, ins: u32, top: usize) -> bool {
        &&& self.with_top(prior.reg_alloc.current_top).emitted(prior, ins)
        &&& self.reg_alloc.current_top == top
    }

    /// Assigning the value of `right` to the variable `name`, inside class
    /// `cls`, is allowed: `name` is a mutable variable of the function being
    /// compiled, and the type of `right` is known and fits the variable's.
    pub open spec fn assignment_ok(self, name: Seq<char>, right: AstNodeV, cls: Option<Seq<char>>) -> bool {
        &&& self.assignable_local(name)
        &&& self.scopes.spec_resolve(name) matches Some((l, _))
        &&& self.spec_infer(right, cls) matches Some(t)
        &&& crate::typing::spec_assignable(l.ty@, t)
    }

    /// Why assigning to the variable `name` is refused, if it is: it is not
    /// bound, it belongs to an enclosing function, or it is not mutable.
    pub open spec fn assignment_refusal(self, name: Seq<char>) -> Option<Seq<char>> {
        match self.scopes.spec_resolve(name) {
            None => Some("undefined variable '"@ + name + "'"@),
            Some((l, depth)) => if depth != self.proto_depth {
                Some("cannot assign to variable captured from outer scope"@)
            } else if !l.mutable {
                Some("cannot assign to immutable variable '"@ + name + "'"@)
            } else {
                None
            },
        }
    }

    /// The refusal of reading member `name` of an object of type `t` from
    /// outside its class `cls`, when the member is private.
    pub open spec fn private_member_message(self, t: Option<TypeV>, name: Seq<char>, cls: Option<Seq<char>>) -> Option<Seq<char>> {
        match t {
            Some(ot) => match crate::typing::spec_resolve_type(ot) {
                Some(TypeV::Class(id)) => if id.0 < self.type_arena.classes@.len() {
                    let c = self.type_arena.classes@[id.0 as int];
                    let inside = cls == Some(c.name@);
                    let fi = crate::ty::first_field_index(c.fields@, name);
                    if inside {
                        None
                    } else if fi >= 0 {
                        if c.fields@[fi].2 {
                            None
                        } else {
                            Some("field '"@ + c.name@ + "."@ + name + "' is private"@)
                        }
                    } else if c.methods@.contains_key(name) && !c.methods@[name].3 {
                        Some("method '"@ + c.name@ + "."@ + name + "' is private"@)
                    } else {
                        None
                    }
                } else {
                    None
                },
                _ => None,
            },
            None => None,
        }
    }

    /// Parameter `b` is a plain name with a type annotation that stands for
    /// a known type, or is named `self`.
    pub open spec fn param_ok(self, b: BindingNode) -> bool {
        b matches BindingNode::IdentifierBinding { name, ty } && (!(self.spec_compile_type(ty@) is Unknown) || name@ == "self"@)
    }

    /// `name` is a mutable variable of the function being compiled.
    pub open spec fn assignable_local(self, name: Seq<char>) -> bool {
        self.scopes.spec_resolve(name) matches Some((l, d)) && d == self.proto_depth && l.mutable
    }

    /// `post` is `self` after `use` bound the (actual name, alias) pairs
    /// `used`: one more register is in use per pair, and each alias
    /// resolves to a local that holds a native function.
    pub open spec fn used_names(self, post: LucyCompiler, used: Seq<(Seq<char>, Seq<char>)>) -> bool {
        &&& post.reg_alloc.current_top == self.reg_alloc.current_top + used.len()
        &&& forall|k: int| 0 <= k < used.len() ==> #[trigger] binds_native(post.scopes, used[k].1)
    }

    /// `self` is `mid` after binding the native function `idx` to `alias` in
    /// register `reg`, the register top: the function is loaded from the
    /// constant table into the register, and `alias` becomes an immutable
    /// local of unknown type backed by the function; other names resolve as
    /// before.
    pub open spec fn native_bound(self, mid: LucyCompiler, alias: Seq<char>, idx: usize, reg: usize) -> bool {
        &&& self.cur().code@ == mid.cur().code@.push(
            instr_abx(Opcode::LOADK, reg, const_slot(mid.cur().constants@, ConstantValueV::NativeFunctionProto(idx)) as usize),
        )
        &&& view_constants(self.cur().constants@) == with_constant(mid.cur().constants@, ConstantValueV::NativeFunctionProto(idx))
        &&& self.proto_stack@.drop_last() == mid.proto_stack@.drop_last()
        &&& self.reg_alloc.current_top == reg + 1
        &&& self.scopes.spec_resolve(alias) matches Some((l, d)) && l.reg == reg && l.ty@ == TypeV::Unknown
            && crate::scope::view_backing(l.backing) == Some(ConstantValueV::NativeFunctionProto(idx)) && !l.mutable && !l.moved
            && d == mid.scopes.scopes@.last().proto_depth
        &&& forall|other: Seq<char>| other != alias ==> #[trigger] self.scopes.spec_resolve(other) == mid.scopes.spec_resolve(other)
    }

    /// `self` is `prior` after binding each native function of `entries` to
    /// its alias, one after the other, in the registers from `top` up.
    pub open spec fn natives_bound(self, prior: LucyCompiler, entries: Seq<(Seq<char>, usize)>, top: usize) -> bool
        decreases entries.len(),
    {
        if entries.len() == 0 {
            self == prior
        } else {
            exists|mid: LucyCompiler|
                #![trigger mid.cur()]
                mid.natives_bound(prior, entries.drop_last(), top) && self.native_bound(
                    mid,
                    entries.last().0,
                    entries.last().1,
                    (top + entries.len() - 1) as usize,
                )
        }
    }

    /// Where `stmt` declares a function, `post` binds its name in the
    /// function being compiled and its code ends by loading the function
    /// into the register of that binding.
    pub open spec fn declared_function(self, post: LucyCompiler, stmt: AstNodeV) -> bool {
        stmt matches AstNodeV::FunctionDeclaration { name, .. } ==> (post.scopes.spec_resolve(name) matches Some((l, d))
            && d == self.scopes.scopes@.last().proto_depth && post.cur().code@.len() > 0 && loads_constant(
            post.cur().code@.last(),
            l.reg,
        ))
    }

    /// Each of `stmts` declares a variable by name with a literal
    /// initialiser whose type fits the declared one.
    pub open spec fn literal_declarations(self, stmts: Seq<AstNodeV>) -> bool {
        forall|k: int| 0 <= k < stmts.len() ==> (declaration_part(#[trigger] stmts[k]) matches AstNodeV::VarDeclaration {
            binding: BindingNodeV::IdentifierBinding { ty, .. },
            init_value: Some(e),
        } && is_literal(*e) && crate::typing::spec_assignable(self.spec_compile_type(ty), literal_type(*e)))
    }

    /// Compilers that look types up alike agree on which statements are
    /// declarations with fitting literal initialisers.
    pub proof fn lemma_literal_declarations_frame(c1: LucyCompiler, c2: LucyCompiler, stmts: Seq<AstNodeV>)
        requires
            forall|k: Seq<char>| #[trigger] c1.scopes.spec_lookup_type(k) == c2.scopes.spec_lookup_type(k),
        ensures
            c1.literal_declarations(stmts) == c2.literal_declarations(stmts),
    {
        assert forall|k: int| 0 <= k < stmts.len() implies (declaration_part(#[trigger] stmts[k]) matches AstNodeV::VarDeclaration {
            binding: BindingNodeV::IdentifierBinding { ty, .. },
            ..
        } ==> c1.spec_compile_type(ty) == c2.spec_compile_type(ty)) by {
            if let AstNodeV::VarDeclaration { binding: BindingNodeV::IdentifierBinding { ty, .. }, .. } = declaration_part(stmts[k]) {
                Self::lemma_compile_type_frame(c1, c2, ty);
            }
        }
    }

    /// `post` is `self` after declaring variable `name` with annotation `ty`
    /// and initialiser `init`, with outcome `r`: on success `name` resolves
    /// to the register that was the first free one, with the declared type
    /// (or, if none is declared, the initialiser's), mutable as declared.
    pub open spec fn declared(
        self,
        post: LucyCompiler,
        r: Result<(), CompileError>,
        name: Seq<char>,
        ty: crate::syntax::TypeNodeV,
        init: Option<Box<AstNodeV>>,
        cls: Option<Seq<char>>,
    ) -> bool {
        r is Ok ==> (post.scopes.spec_resolve(name) matches Some((l, d)) && l.reg == self.reg_alloc.current_top
            && l.ty@ == self.spec_declared_type(ty, init, cls) && l.mutable == Type::spec_is_mutable(
            self.spec_compile_type(ty),
        ) && d == self.scopes.scopes@.last().proto_depth)
    }

    /// The type a declared variable gets: the annotation's, or when there is
    /// none the initialiser's.
    pub open spec fn spec_declared_type(self, ty: crate::syntax::TypeNodeV, init: Option<Box<AstNodeV>>, cls: Option<Seq<char>>) -> TypeV {
        let d = self.spec_compile_type(ty);
        if d is Unknown {
            match init {
                Some(e) => match self.spec_infer(*e, cls) {
                    Some(t) => t,
                    None => TypeV::Unknown,
                },
                None => TypeV::Unknown,
            }
        } else {
            d
        }
    }

    pub proof fn lemma_extends_refl(s: LucyCompiler)
        ensures
            s.extends(s),
    {
    }

    pub proof fn lemma_extends_trans(a: LucyCompiler, b: LucyCompiler, c: LucyCompiler)
        requires
            b.extends(a),
            c.extends(b),
        ensures
            c.extends(a),
    {
        assert(is_prefix(a.cur().code@, c.cur().code@));
        assert(is_prefix(a.cur().constants@, c.cur().constants@));
        assert(is_prefix(a.cur().protos@, c.cur().protos@));
        assert(is_prefix(a.cur().upvalues@, c.cur().upvalues@));
        assert(is_prefix(a.type_arena.classes@, c.type_arena.classes@));
        assert(a.scopes.types_kept(c.scopes, a.scopes.scopes@.len() - 1));
        assert(a.scopes.namespaces_kept(c.scopes, a.scopes.scopes@.len() - 1));
        assert(a.scopes.bases_kept(c.scopes));
    }

    /// Compiling expressions one after the other only adds, and only marks
    /// variables moved.
    pub proof fn lemma_expr_trans(a: LucyCompiler, b: LucyCompiler, c: LucyCompiler)
        requires
            b.extends(a),
            a.scopes.resolves_alike(b.scopes),
            c.extends(b),
            b.scopes.resolves_alike(c.scopes),
        ensures
            c.extends(a),
            a.scopes.resolves_alike(c.scopes),
    {
        Self::lemma_extends_trans(a, b, c);
        crate::scope::lemma_resolves_alike_trans(a.scopes, b.scopes, c.scopes);
    }

    pub proof fn lemma_emitted_extends(post: LucyCompiler, prior: LucyCompiler, ins: u32)
        requires
            post.emitted(prior, ins),
        ensures
            post.extends(prior),
    {
        assert(is_prefix(prior.cur().code@, post.cur().code@)) by {
            assert forall|i: int| 0 <= i < prior.cur().code@.len() implies #[trigger] prior.cur().code@[i]
                == post.cur().code@[i] by {}
        }
    }

    pub proof fn lemma_loaded_extends(post: LucyCompiler, prior: LucyCompiler, dst: usize, c: ConstantValueV)
        requires
            post.loaded_constant(prior, dst, c),
        ensures
            post.extends(prior),
    {
        assert(is_prefix(prior.cur().code@, post.cur().code@)) by {
            assert forall|i: int| 0 <= i < prior.cur().code@.len() implies #[trigger] prior.cur().code@[i]
                == post.cur().code@[i] by {}
        }
    }

    /// Takes the next free register.
    pub fn alloc_reg(&mut self) -> (r: Result<usize, CompileError>)
        ensures
            match r {
                Ok(reg) => reg == old(self).reg_alloc.current_top && final(self).reg_alloc.current_top
                    == old(self).reg_alloc.current_top + 1,
                Err(_) => old(self).reg_alloc.current_top == usize::MAX && final(self).reg_alloc == old(self).reg_alloc,
            },
            final(self).scopes == old(self).scopes,
            final(self).proto_stack == old(self).proto_stack,
            final(self).proto_depth == old(self).proto_depth,
            final(self).native_protos == old(self).native_protos,
            final(self).native_namespaces == old(self).native_namespaces,
            final(self).file_namespaces == old(self).file_namespaces,
            final(self).type_arena == old(self).type_arena,
    {
        if self.reg_alloc.current_top == usize::MAX {
            return Err(CompileError::Unsupported(String::from_str("out of registers")));
        }
        Ok(self.reg_alloc.allocate())
    }

    /// Emits an instruction with three operands.
    pub fn emit_abc(&mut self, op: Opcode, a: usize, b: usize, c: usize)
        requires
            old(self).proto_stack@.len() > 0,
        ensures
            final(self).emitted(*old(self), instr_abc(op, a, b, c)),
    {
        let ins = pack_abc(opcode_number(op), a as u32, b as u32, c as u32);
        self.emit(ins);
    }

    /// Emits an instruction with an operand and a wide operand.
    pub fn emit_abx(&mut self, op: Opcode, a: usize, bx: usize)
        requires
            old(self).proto_stack@.len() > 0,
        ensures
            final(self).emitted(*old(self), instr_abx(op, a, bx)),
    {
        let ins = pack_abx(opcode_number(op), a as u32, bx as u32);
        self.emit(ins);
    }

    /// Loads constant `c` into register `dst`.
    pub fn load_constant(&mut self, dst: usize, c: ConstantValue)
        requires
            old(self).proto_stack@.len() > 0,
        ensures
            final(self).loaded_constant(*old(self), dst, c@),
    {
        let ghost cv = c@;
        let k = self.add_constant(c);
        proof {
            crate::compiler::lemma_first_constant_index(old(self).cur().constants@, cv);
            assert(view_constants(old(self).cur().constants@.push(c)) =~= view_constants(old(self).cur().constants@).push(cv));
            assert(view_constants(old(self).cur().constants@) =~= view_constants(old(self).cur().constants@));
        }
        self.emit_abx(Opcode::LOADK, dst, k);
    }

    /// Emits `MOVE dst src` unless the value is already in `dst`.
    pub fn move_into(&mut self, dst: usize, src: usize)
        requires
            old(self).proto_stack@.len() > 0,
        ensures
            src != dst ==> final(self).emitted(*old(self), instr_abc(Opcode::MOVE, dst, src, 0)),
            src == dst ==> *final(self) == *old(self),
    {
        if src != dst {
            self.emit_abc(Opcode::MOVE, dst, src, 0);
        }
    }
}

/// `a`, `b`, `c`, `d` and `e`, one after the other.
pub fn text5(a: &str, b: &str, c: &str, d: &str, e: &str) -> (s: String)
    ensures
        s@ == a@ + b@ + c@ + d@ + e@,
{
    let mut s = text3(a, b, c);
    s.append(d);
    s.append(e);
    s
}

impl LucyCompiler {
    /// The function type of the overload of `op` in class `id`, if it has one.
    fn class_operator(&self, id: crate::ty::TypeId, op: Operator) -> (r: Result<Option<FunctionType>, CompileError>)
        ensures
            r is Err <==> id.0 >= self.type_arena.classes@.len(),
            r matches Ok(Some(ft)) ==> crate::ty::first_operator_index(self.type_arena.classes@[id.0 as int].operators@, op) >= 0
                && ft@ == self.type_arena.classes@[id.0 as int].operators@[crate::ty::first_operator_index(
                    self.type_arena.classes@[id.0 as int].operators@,
                    op,
                )].2@,
            r matches Ok(None) ==> crate::ty::first_operator_index(self.type_arena.classes@[id.0 as int].operators@, op) < 0,
    {
        if id.0 >= self.type_arena.classes.len() {
            return Err(CompileError::Unsupported(String::from_str("type refers to a class that does not exist")));
        }
        let class = self.type_arena.get_class(id);
        proof {
            crate::ty::lemma_first_operator_index(class.operators@, op);
        }
        match class.find_operator(op) {
            Some(i) => Ok(Some(class.operators[i].2.copy())),
            None => Ok(None),
        }
    }

    fn class_name_of(b: &AstNode, ctx: &CompilingCtx) -> (r: Result<String, CompileError>)
        ensures
            match b@ {
                AstNodeV::SelfExpr => match ctx.class_name() {
                    Some(c) => r matches Ok(n) && n@ == c,
                    None => r is Err,
                },
                AstNodeV::Identifier(s) => r matches Ok(n) && n@ == s,
                _ => r is Err,
            },
    {
        match b {
            AstNode::SelfExpr => match &ctx.current_class {
                Some(c) => Ok(c.clone()),
                None => Err(CompileError::TypeError(String::from_str("Self used outside of class"))),
            },
            AstNode::Identifier(s) => Ok(s.clone()),
            _ => Err(CompileError::Unsupported(String::from_str("Unknown class type"))),
        }
    }

    fn compile_moved(&mut self, node: &AstNode, dst: usize, ctx: &CompilingCtx) -> (r: Result<(), CompileError>)
        requires
            old(self).ready(),
        ensures
            r is Ok ==> final(self).type_arena == old(self).type_arena,
            r is Ok ==> final(self).extends(*old(self)) && old(self).scopes.resolves_alike(final(self).scopes),
            node@ matches AstNodeV::Moved(inner) ==> (*inner matches AstNodeV::Identifier(name) ==> old(self).moved_outcome(
                name,
                dst,
                *final(self),
                r,
            )),
        decreases node, 1nat,
    {
        match node {
            AstNode::Moved(inner) => match &**inner {
                AstNode::Identifier(name) => {
                    proof {
                        assert((**inner).view() == AstNodeV::Identifier(name@));
                        assert(node@ == AstNodeV::Moved(Box::new(AstNodeV::Identifier(name@))));
                    }
                    match self.scopes.resolve_local(name, self.proto_depth) {
                    Some(LocalResolution::Local { reg, moved, .. }) => {
                        if moved {
                            return Err(
                                CompileError::TypeError(text3("use of already-moved variable '", name.as_str(), "'")),
                            );
                        }
                        self.move_into(dst, reg);
                        proof {
                            if reg != dst {
                                Self::lemma_emitted_extends(*self, *old(self), instr_abc(Opcode::MOVE, dst, reg, 0));
                            }
                        }
                        self.scopes.mark_moved(name);
                        Ok(())
                    },
                    Some(LocalResolution::OuterProto { .. }) => Err(
                        CompileError::TypeError(text3("cannot move '", name.as_str(), "' captured from outer scope")),
                    ),
                    None => Err(CompileError::TypeError(text3("undefined variable '", name.as_str(), "'"))),
                    }
                },
                other => self.compile_expr(other, dst, ctx),
            },
            _ => Err(CompileError::Unsupported(String::from_str("Unhandled expr node"))),
        }
    }

    #[verifier::rlimit(40)]
    fn compile_class_literal(&mut self, node: &AstNode, dst: usize, ctx: &CompilingCtx) -> (r: Result<(), CompileError>)
        requires
            old(self).ready(),
        ensures
            r is Ok ==> final(self).type_arena == old(self).type_arena,
            r is Ok ==> final(self).extends(*old(self)) && old(self).scopes.resolves_alike(final(self).scopes),
            r is Ok ==> final(self).reg_alloc.current_top == old(self).reg_alloc.current_top,
            node@ matches AstNodeV::ClassLiteral { ty, .. } ==> old(self).class_literal_start(
                *ty,
                ctx.class_name(),
                dst,
                *final(self),
                r,
            ),
            node@ matches AstNodeV::ClassLiteral { ty, fields } ==> (built_literal_class(*old(self), *ty, ctx.class_name()) is Some
                && (forall|k: int| 0 <= k < fields.len() ==> is_literal(#[trigger] fields[k].1)) ==> (r is Ok <==> (forall|k: int|
                0 <= k < fields.len() ==> #[trigger] literal_field_fits(built_literal_class(*old(self), *ty, ctx.class_name())->0, fields[k]))
                && (fields.len() == 0 || old(self).reg_alloc.current_top < usize::MAX))),
            node@ matches AstNodeV::ClassLiteral { ty, fields } ==> (built_literal_class(*old(self), *ty, ctx.class_name()) is Some
                && (forall|k: int| 0 <= k < fields.len() ==> is_literal(#[trigger] fields[k].1)) ==> (r is Ok ==> exists|s0: LucyCompiler| {
                let cv = built_literal_class(*old(self), *ty, ctx.class_name())->0.class_proto_constant->0@;
                &&& #[trigger] final(self).literal_fields_set(
                    s0,
                    fields,
                    dst,
                    old(self).reg_alloc.current_top,
                    built_literal_class(*old(self), *ty, ctx.class_name())->0,
                )
                &&& s0.cur().code@ == old(self).cur().code@.push(
                    instr_abx(Opcode::NEWCLASS, dst, const_slot(old(self).cur().constants@, cv) as usize),
                )
                &&& view_constants(s0.cur().constants@) == with_constant(old(self).cur().constants@, cv)
                &&& s0.reg_alloc == old(self).reg_alloc
            })),
        decreases node, 1nat,
    {
        match node {
            AstNode::ClassLiteral { ty, fields } => {
                proof {
                    assert(node@ matches AstNodeV::ClassLiteral { ty: t, .. } && *t == (**ty)@);
                }
                let class_name = match &**ty {
                    AstNode::Identifier(s) => s.clone(),
                    AstNode::SelfExpr => match &ctx.current_class {
                        Some(c) => c.clone(),
                        None => {
                            return Err(CompileError::TypeError(String::from_str("Self used outside of class")));
                        },
                    },
                    AstNode::Borrowed(b) => match Self::class_name_of(b, ctx) {
                        Ok(n) => n,
                        Err(e) => return Err(e),
                    },
                    AstNode::Moved(b) => match Self::class_name_of(b, ctx) {
                        Ok(n) => n,
                        Err(e) => return Err(e),
                    },
                    _ => {
                        return Err(CompileError::Unsupported(String::from_str("Unknown class")));
                    },
                };
                let class_id = match self.scopes.lookup_type(&class_name) {
                    Some(Type::Class(id)) => *id,
                    _ => {
                        return Err(
                            CompileError::Unsupported(
                                text3("ClassLiteral: '", class_name.as_str(), "' is not a class type"),
                            ),
                        );
                    },
                };
                if class_id.0 >= self.type_arena.classes.len() {
                    return Err(CompileError::Unsupported(String::from_str("type refers to a class that does not exist")));
                }
                let cv = match &self.type_arena.get_class(class_id).class_proto_constant {
                    Some(cv) => cv.copy(),
                    None => {
                        return Err(
                            CompileError::Unsupported(
                                text3(
                                    "ClassProto not built for '",
                                    class_name.as_str(),
                                    "' (class used before fully defined)",
                                ),
                            ),
                        );
                    },
                };
                let ghost cvv = cv@;
                let ghost sa = *self;
                let k = self.add_constant(cv);
                proof {
                    crate::compiler::lemma_first_constant_index(sa.cur().constants@, cvv);
                    assert(view_constants(sa.cur().constants@.push(cv)) =~= view_constants(
                        sa.cur().constants@,
                    ).push(cvv));
                    assert(view_constants(sa.cur().constants@) =~= view_constants(sa.cur().constants@));
                }
                self.emit_abx(Opcode::NEWCLASS, dst, k);
                proof {
                    assert(is_prefix(old(self).cur().constants@, self.cur().constants@));
                    assert(is_prefix(old(self).cur().code@, self.cur().code@));
                }
                let ghost s0 = *self;
                proof {
                    assert(crate::syntax::view_fields(fields@).take(0) =~= Seq::<(Seq<char>, AstNodeV)>::empty());
                }
                let mut i: usize = 0;
                proof {
                    assert(decreases_to!(node => fields@));
                    crate::syntax::lemma_view_fields(fields@);
                }
                while i < fields.len()
                    invariant
                        decreases_to!(node => fields@),
                        old(self).ready(),
                        self.ready(),
                        self.extends(*old(self)),
                        old(self).scopes.resolves_alike(self.scopes),
                        class_id.0 < self.type_arena.classes@.len(),
                        self.reg_alloc.current_top == old(self).reg_alloc.current_top,
                        self.cur().code@.len() > old(self).cur().code@.len(),
                        self.cur().code@[old(self).cur().code@.len() as int] == instr_abx(Opcode::NEWCLASS, dst, k),
                        self.type_arena == old(self).type_arena,
                        literal_class_name((**ty)@, ctx.class_name()) == Some(class_name@),
                        node@ matches AstNodeV::ClassLiteral { ty: t, .. } && *t == (**ty)@,
                        old(self).scopes.spec_lookup_type(class_name@) matches Some(t) && t@ == TypeV::Class(class_id),
                        class_id.0 < old(self).type_arena.classes@.len(),
                        old(self).type_arena.classes@[class_id.0 as int].class_proto_constant is Some,
                        built_literal_class(*old(self), (**ty)@, ctx.class_name()) == Some(old(self).type_arena.classes@[class_id.0 as int]),
                        crate::syntax::view_fields(fields@).len() == fields@.len(),
                        forall|m: int| 0 <= m < fields@.len() ==> #[trigger] crate::syntax::view_fields(fields@)[m] == (fields@[m].0@, fields@[m].1@),
                        node@ matches AstNodeV::ClassLiteral { fields: fv, .. } && fv == crate::syntax::view_fields(fields@),
                        forall|m: int| 0 <= m < i && is_literal(fields@[m].1@) ==> #[trigger] literal_field_fits(
                            old(self).type_arena.classes@[class_id.0 as int],
                            crate::syntax::view_fields(fields@)[m],
                        ),
                        i > 0 ==> old(self).reg_alloc.current_top < usize::MAX,
                        i <= fields@.len(),
                        (forall|m: int| 0 <= m < fields@.len() ==> is_literal(#[trigger] fields@[m].1@)) ==> self.literal_fields_set(
                            s0,
                            crate::syntax::view_fields(fields@).take(i as int),
                            dst,
                            old(self).reg_alloc.current_top,
                            old(self).type_arena.classes@[class_id.0 as int],
                        ),
                    decreases fields.len() - i,
                {
                    let fname = &fields[i].0;
                    let fexpr = &fields[i].1;
                    let ghost c0 = old(self).type_arena.classes@[class_id.0 as int];
                    let ghost fi = crate::syntax::view_fields(fields@)[i as int];
                    proof {
                        assert(fi == (fname@, fexpr@));
                        assert(built_literal_class(*old(self), (**ty)@, ctx.class_name())->0 == c0);
                        assert(node@ matches AstNodeV::ClassLiteral { ty: t, fields: fv } && *t == (**ty)@ && fv[i as int] == fi
                            && fv.len() == fields@.len());
                    }
                    let expected = {
                        let class = self.type_arena.get_class(class_id);
                        match class.find_field(fname) {
                            Some(j) => {
                                proof {
                                    crate::ty::lemma_first_field_index(class.fields@, fname@);
                                }
                                class.fields[j].1.copy()
                            },
                            None => {
                                proof {
                                    assert(!literal_field_fits(c0, fi));
                                }
                                return Err(
                                    CompileError::TypeError(
                                        text5("class '", class_name.as_str(), "' has no field '", fname.as_str(), "'"),
                                    ),
                                );
                            },
                        }
                    };
                    let actual = match self.infer_expr_type(fexpr, ctx) {
                        Ok(t) => t,
                        Err(e) => {
                            proof {
                                assert(!is_literal(fi.1));
                            }
                            return Err(e);
                        },
                    };
                    let context = text5("field '", fname.as_str(), "' of '", class_name.as_str(), "'");
                    match self.assert_assignable(&expected, &actual, context.as_str()) {
                        Ok(()) => {},
                        Err(e) => {
                            proof {
                                if is_literal(fexpr@) {
                                    assert(!literal_field_fits(c0, fi));
                                }
                            }
                            return Err(e);
                        },
                    }
                    let ghost st = *self;
                    let val_reg = match self.alloc_reg() {
                        Ok(x) => x,
                        Err(e) => return Err(e),
                    };
                    let ghost before = *self;
                    proof {
                        assert(decreases_to!(fields@ => fields@[i as int]));
                        assert(decreases_to!(fields@[i as int] => fields@[i as int].1));
                    }
                    match self.compile_expr(fexpr, val_reg, ctx) {
                        Ok(()) => {},
                        Err(e) => return Err(e),
                    }
                    proof {
                        Self::lemma_expr_trans(*old(self), before, *self);
                    }
                    let field_index = match self.type_arena.get_class(class_id).field_index_map.get(fname) {
                        Some(x) => *x,
                        None => {
                            proof {
                                assert(!literal_field_fits(c0, fi));
                            }
                            return Err(CompileError::Unsupported(text3("Unknown field '", fname.as_str(), "'")));
                        },
                    };
                    proof {
                        if is_literal(fexpr@) {
                            assert(literal_field_fits(c0, fi));
                        }
                    }
                    let ghost mid = *self;
                    self.emit_abc(Opcode::SETFIELD, dst, val_reg, field_index);
                    proof {
                        Self::lemma_emitted_extends(*self, mid, instr_abc(Opcode::SETFIELD, dst, val_reg, field_index));
                        Self::lemma_expr_trans(*old(self), mid, *self);
                    }
                    self.reg_alloc.free_to(val_reg);
                    proof {
                        if forall|m: int| 0 <= m < fields@.len() ==> is_literal(#[trigger] fields@[m].1@) {
                            let fv = crate::syntax::view_fields(fields@);
                            let top = old(self).reg_alloc.current_top;
                            assert(is_literal(fields@[i as int].1@));
                            assert(before == st.with_top((top + 1) as usize));
                            assert(mid.compiled_plain(before, fi.1, val_reg));
                            assert(field_index == c0.field_index_map@[fi.0]);
                            assert(fv.take(i + 1).drop_last() =~= fv.take(i as int));
                            assert(fv.take(i + 1).last() == fi);
                            // Names the intermediate states, which the definition's quantifier is triggered on.
                            assert(st.cur() == st.cur() && mid.cur() == mid.cur());
                            assert(self.literal_fields_set(s0, fv.take(i + 1), dst, top, c0));
                        }
                    }
                    i = i + 1;
                }
                proof {
                    let fv = crate::syntax::view_fields(fields@);
                    assert(fv.take(fields@.len() as int) =~= fv);
                    if forall|m: int| 0 <= m < fv.len() ==> is_literal(#[trigger] fv[m].1) {
                        assert forall|m: int| 0 <= m < fields@.len() implies is_literal(#[trigger] fields@[m].1@) by {
                            assert(fv[m].1 == fields@[m].1@);
                        }
                        assert(s0.cur().code@ == old(self).cur().code@.push(
                            instr_abx(Opcode::NEWCLASS, dst, const_slot(old(self).cur().constants@, cvv) as usize),
                        ));
                        assert(view_constants(s0.cur().constants@) == with_constant(old(self).cur().constants@, cvv));
                        let c0 = old(self).type_arena.classes@[class_id.0 as int];
                        assert(self.literal_fields_set(s0, fv, dst, old(self).reg_alloc.current_top, c0));
                        assert(built_literal_class(*old(self), (**ty)@, ctx.class_name())->0 == c0);
                        assert(cvv == c0.class_proto_constant->0@);
                        assert(s0.reg_alloc == old(self).reg_alloc);
                    }
                }
                Ok(())
            },
            _ => Err(CompileError::Unsupported(String::from_str("Unhandled expr node"))),
        }
    }
}

impl LucyCompiler {
    fn compile_call(&mut self, node: &AstNode, dst: usize, ctx: &CompilingCtx) -> (r: Result<(), CompileError>)
        requires
            old(self).ready(),
        ensures
            r is Ok ==> final(self).type_arena == old(self).type_arena,
            r is Ok ==> final(self).extends(*old(self)) && old(self).scopes.resolves_alike(final(self).scopes),
            r is Ok ==> final(self).reg_alloc.current_top == dst + 1,
            node@ matches AstNodeV::FunctionCall { callee, args } ==> (r is Ok ==> final(self).cur().code@.len() > 0
                && final(self).cur().code@.last() == instr_abc(
                Opcode::CALL,
                dst,
                (if *callee is DotIndex {
                    args.len() + 1
                } else {
                    args.len()
                }) as usize,
                1,
            )),
            node@ matches AstNodeV::FunctionCall { callee, args } ==> (r is Ok ==> final(self).call_args_pass(
                *callee,
                args,
                ctx.class_name(),
            )),
            node@ matches AstNodeV::FunctionCall { callee, args } ==> (old(self).plain_operand(*callee) && (forall|k: int|
                0 <= k < args.len() ==> is_literal(#[trigger] args[k])) ==> (r is Ok <==> dst < usize::MAX && (args.len() == 0
                || old(self).reg_alloc.current_top + args.len() <= usize::MAX))),
            node@ matches AstNodeV::FunctionCall { callee, args } ==> (old(self).plain_operand(*callee) && (forall|k: int|
                0 <= k < args.len() ==> is_literal(#[trigger] args[k])) ==> (r is Ok ==> exists|s1: LucyCompiler, s2: LucyCompiler| {
                &&& #[trigger] s1.compiled_plain(*old(self), *callee, dst)
                &&& #[trigger] s2.literals_loaded(s1, args, old(self).reg_alloc.current_top)
                &&& final(self).cur().code@ == s2.cur().code@.push(instr_abc(Opcode::CALL, dst, args.len() as usize, 1))
                &&& final(self).cur().constants == s2.cur().constants
            })),
        decreases node, 1nat,
    {
        match node {
            AstNode::FunctionCall { callee, args } => {
                proof {
                    crate::syntax::lemma_view_asts(args@);
                    assert(node@ == AstNodeV::FunctionCall {
                        callee: Box::new((**callee)@),
                        args: crate::syntax::view_asts(args@),
                    });
                }
                let ghost simple = old(self).plain_operand((**callee)@) && (forall|k: int|
                    0 <= k < args@.len() ==> is_literal(#[trigger] crate::syntax::view_asts(args@)[k]));
                let is_method_call = matches!(**callee, AstNode::DotIndex { .. });
                match self.compile_expr(callee, dst, ctx) {
                    Ok(()) => {},
                    Err(e) => return Err(e),
                }
                let ghost sc = *self;
                proof {
                    if simple {
                        assert(sc.compiled_plain(*old(self), (**callee)@, dst));
                        assert(crate::syntax::view_asts(args@).take(0) =~= Seq::<AstNodeV>::empty());
                    }
                }
                let nargs = args.len();
                let mut i: usize = 0;
                proof {
                    assert(decreases_to!(node => args@));
                }
                while i < args.len()
                    invariant
                        decreases_to!(node => args@),
                        old(self).ready(),
                        self.ready(),
                        self.extends(*old(self)),
                        old(self).scopes.resolves_alike(self.scopes),
                        self.type_arena == old(self).type_arena,
                        i <= args@.len(),
                        crate::syntax::view_asts(args@).len() == args@.len(),
                        forall|m: int| 0 <= m < args@.len() ==> #[trigger] crate::syntax::view_asts(args@)[m] == args@[m]@,
                        simple == (old(self).plain_operand((**callee)@) && (forall|k: int|
                            0 <= k < args@.len() ==> is_literal(#[trigger] crate::syntax::view_asts(args@)[k]))),
                        simple ==> self.reg_alloc.current_top == old(self).reg_alloc.current_top + i,
                        simple ==> self.literals_loaded(sc, crate::syntax::view_asts(args@).take(i as int), old(self).reg_alloc.current_top),
                        node@ == (AstNodeV::FunctionCall { callee: Box::new((**callee)@), args: crate::syntax::view_asts(args@) }),
                    decreases args.len() - i,
                {
                    proof {
                        if simple {
                            assert(is_literal(crate::syntax::view_asts(args@)[i as int]));
                        }
                    }
                    let ghost st = *self;
                    let arg_reg = match self.alloc_reg() {
                        Ok(x) => x,
                        Err(e) => return Err(e),
                    };
                    let ghost before = *self;
                    proof {
                        assert(decreases_to!(args@ => args@[i as int]));
                    }
                    match self.compile_expr(&args[i], arg_reg, ctx) {
                        Ok(()) => {},
                        Err(e) => return Err(e),
                    }
                    proof {
                        Self::lemma_expr_trans(*old(self), before, *self);
                        if simple {
                            let av = crate::syntax::view_asts(args@);
                            let top = old(self).reg_alloc.current_top;
                            assert(before == st.with_top((top + i + 1) as usize));
                            assert(self.compiled_plain(before, av[i as int], arg_reg));
                            assert(av.take(i + 1).drop_last() =~= av.take(i as int));
                            assert(av.take(i + 1).last() == av[i as int]);
                            // Names the intermediate states, which the definition's quantifier is triggered on.
                            assert(st.cur() == st.cur());
                            assert(self.literals_loaded(sc, av.take(i + 1), top));
                        }
                    }
                    i = i + 1;
                }
                let effective_nargs = if is_method_call {
                    if nargs == usize::MAX {
                        return Err(CompileError::Unsupported(String::from_str("too many arguments")));
                    }
                    nargs + 1
                } else {
                    nargs
                };
                let callee_ty = match self.infer_expr_type(callee, ctx) {
                    Ok(t) => t,
                    Err(e) => return Err(e),
                };
                if let Type::Function(ft) = &callee_ty {
                    let offset: usize = if is_method_call {
                        1
                    } else {
                        0
                    };
                    let ghost av = crate::syntax::view_asts(args@);
                    let ghost ps = argument_params(ft@.params, (**callee)@ is DotIndex);
                    proof {
                        assert(is_method_call == ((**callee)@ is DotIndex));
                        crate::ty::lemma_view_types(ft.params@);
                    }
                    let mut j: usize = 0;
                    while j < args.len() && j < ft.params.len() && j + offset < ft.params.len()
                        invariant
                            offset <= 1,
                            offset == 1 <==> (**callee)@ is DotIndex,
                            ps == argument_params(ft@.params, (**callee)@ is DotIndex),
                            ft@.params.len() == ft.params@.len(),
                            forall|m: int| 0 <= m < ft.params@.len() ==> #[trigger] ft@.params[m] == ft.params@[m]@,
                            av.len() == args@.len(),
                            forall|m: int| 0 <= m < args@.len() ==> #[trigger] av[m] == args@[m]@,
                            self.spec_infer((**callee)@, ctx.class_name()) == Some(callee_ty@),
                            simple ==> forall|m: int| 0 <= m < args@.len() ==> is_literal(#[trigger] av[m]),
                            simple ==> self.reg_alloc.current_top == old(self).reg_alloc.current_top + args@.len(),
                            simple == (old(self).plain_operand((**callee)@) && (forall|k: int|
                                0 <= k < args@.len() ==> is_literal(#[trigger] crate::syntax::view_asts(args@)[k]))),
                            node@ == (AstNodeV::FunctionCall { callee: Box::new((**callee)@), args: av }),
                            j <= args@.len(),
                            forall|m: int| 0 <= m < j && m < ps.len() ==> #[trigger] self.arg_passes(
                                av[m],
                                ps[m],
                                ctx.class_name(),
                            ),
                        decreases args.len() - j,
                    {
                        let arg = &args[j];
                        proof {
                            assert(ps[j as int] == ft.params@[j + offset]@);
                            assert(av[j as int] == arg@);
                        }
                        match &ft.params[j + offset] {
                            Type::Qualified { moved, borrowed, .. } => {
                                if *moved {
                                    if let AstNode::Identifier(n) = arg {
                                        return Err(
                                            CompileError::TypeError(
                                                text5(
                                                    "variable '",
                                                    n.as_str(),
                                                    "' must be explicitly moved (use '->",
                                                    n.as_str(),
                                                    "')",
                                                ),
                                            ),
                                        );
                                    }
                                } else if *borrowed {
                                    if let AstNode::Identifier(n) = arg {
                                        let arg_ty = match self.infer_expr_type(arg, ctx) {
                                            Ok(t) => t,
                                            Err(e) => return Err(e),
                                        };
                                        let ok = match &arg_ty {
                                            Type::Qualified { borrowed, .. } => *borrowed,
                                            _ => false,
                                        };
                                        if !ok {
                                            return Err(
                                                CompileError::TypeError(
                                                    text5(
                                                        "variable '",
                                                        n.as_str(),
                                                        "' must be explicitly borrowed (use '&",
                                                        n.as_str(),
                                                        "')",
                                                    ),
                                                ),
                                            );
                                        }
                                    }
                                }
                            },
                            _ => {},
                        }
                        j = j + 1;
                    }
                }
                assert(self.call_args_pass((**callee)@, crate::syntax::view_asts(args@), ctx.class_name()));
                let ghost mid = *self;
                proof {
                    if simple {
                        assert(crate::syntax::view_asts(args@).take(args@.len() as int) =~= crate::syntax::view_asts(args@));
                    }
                }
                self.emit_abc(Opcode::CALL, dst, effective_nargs, 1);
                proof {
                    crate::syntax::lemma_view_asts(args@);
                    assert(is_method_call == ((**callee)@ is DotIndex));
                    Self::lemma_emitted_extends(*self, mid, instr_abc(Opcode::CALL, dst, effective_nargs, 1));
                    Self::lemma_expr_trans(*old(self), mid, *self);
                }
                if dst == usize::MAX {
                    return Err(CompileError::Unsupported(String::from_str("out of registers")));
                }
                self.reg_alloc.free_to(dst + 1);
                proof {
                    Self::lemma_call_args_frame(mid, *self, (**callee)@, crate::syntax::view_asts(args@), ctx.class_name());
                }
                Ok(())
            },
            _ => Err(CompileError::Unsupported(String::from_str("Unhandled expr node"))),
        }
    }

    /// Whether the arguments of a call pass depends only on the scopes and
    /// the classes.
    pub proof fn lemma_call_args_frame(
        c1: LucyCompiler,
        c2: LucyCompiler,
        callee: AstNodeV,
        args: Seq<AstNodeV>,
        cls: Option<Seq<char>>,
    )
        requires
            c1.scopes == c2.scopes,
            c1.type_arena == c2.type_arena,
            c1.call_args_pass(callee, args, cls),
        ensures
            c2.call_args_pass(callee, args, cls),
    {
        Self::lemma_infer_frame(c1, c2, callee, cls);
        match c1.spec_infer(callee, cls) {
            Some(TypeV::Function(ft)) => {
                let ps = argument_params(ft.params, callee is DotIndex);
                assert forall|j: int| 0 <= j < args.len() && j < ps.len() implies #[trigger] c2.arg_passes(args[j], ps[j], cls) by {
                    Self::lemma_infer_frame(c1, c2, args[j], cls);
                    assert(c1.arg_passes(args[j], ps[j], cls));
                }
            },
            _ => {},
        }
    }

    fn compile_dot_index(&mut self, node: &AstNode, dst: usize, ctx: &CompilingCtx) -> (r: Result<(), CompileError>)
        requires
            old(self).ready(),
        ensures
            node@ matches AstNodeV::DotIndex { indexee, index } ==> (old(self).plain_operand(*indexee) ==> (*index matches AstNodeV::Identifier(
                name,
            ) ==> (dst < usize::MAX - 1 && (old(self).reg_alloc.current_top <= dst + 1 || old(
                self,
            ).reg_alloc.current_top < usize::MAX) ==> (old(self).private_member_message(
                old(self).spec_infer(*indexee, ctx.class_name()),
                name,
                ctx.class_name(),
            ) matches Some(msg) ==> (r matches Err(CompileError::TypeError(m)) && m@ == msg))))),
            node@ matches AstNodeV::DotIndex { indexee, .. } ==> (old(self).plain_operand(*indexee) ==> (r is Ok ==> exists|s1: LucyCompiler| {
                &&& #[trigger] old(self).object_compiled(s1, *indexee, dst)
                &&& final(self).cur().constants == s1.cur().constants
                &&& (final(self).cur().code@ == s1.cur().code@ || final(self).cur().code@.drop_last() == s1.cur().code@)
            })),
            node@ matches AstNodeV::DotIndex { indexee, index } ==> (old(self).plain_operand(*indexee) ==> (*index matches AstNodeV::Identifier(
                name,
            ) ==> (r is Ok <==> dst < usize::MAX - 1 && (old(self).reg_alloc.current_top <= dst + 1 || old(
                self,
            ).reg_alloc.current_top < usize::MAX) && old(self).member_readable(
                old(self).spec_infer(*indexee, ctx.class_name()),
                name,
                ctx.class_name(),
            )))),
            r is Ok ==> final(self).type_arena == old(self).type_arena,
            r is Ok ==> final(self).extends(*old(self)) && old(self).scopes.resolves_alike(final(self).scopes),
            node@ matches AstNodeV::DotIndex { index, .. } ==> (!(*index is Identifier) ==> r is Err),
            node@ matches AstNodeV::DotIndex { indexee, index } ==> (*index matches AstNodeV::Identifier(name) ==> (r is Ok
                ==> final(self).private_member_message(final(self).spec_infer(*indexee, ctx.class_name()), name, ctx.class_name())
                is None)),
            node@ matches AstNodeV::DotIndex { indexee, index } ==> (*index matches AstNodeV::Identifier(name) ==> (r is Ok
                ==> final(self).member_access_done(
                final(self).spec_infer(*indexee, ctx.class_name()),
                name,
                ctx.class_name(),
                dst,
                object_register(old(self).reg_alloc.current_top, dst),
            ))),
        decreases node, 1nat,
    {
        match node {
            AstNode::DotIndex { indexee, index } => {
                proof {
                    assert(node@ == AstNodeV::DotIndex {
                        indexee: Box::new((**indexee)@),
                        index: Box::new((**index)@),
                    });
                }
                if dst >= usize::MAX - 1 {
                    return Err(CompileError::Unsupported(String::from_str("out of registers")));
                }
                let obj_reg = if self.reg_alloc.current_top <= dst + 1 {
                    self.reg_alloc.current_top = dst + 2;
                    dst + 1
                } else {
                    match self.alloc_reg() {
                        Ok(x) => x,
                        Err(e) => return Err(e),
                    }
                };
                let ghost before = *self;
                proof {
                    assert(before == old(self).with_top(object_top(old(self).reg_alloc.current_top, dst)));
                }
                match self.compile_expr(indexee, obj_reg, ctx) {
                    Ok(()) => {},
                    Err(e) => return Err(e),
                }
                proof {
                    Self::lemma_expr_trans(*old(self), before, *self);
                }
                let field_name = match &**index {
                    AstNode::Identifier(s) => {
                        proof {
                            assert((**index)@ == AstNodeV::Identifier(s@));
                        }
                        s
                    },
                    _ => {
                        return Err(CompileError::Unsupported(String::from_str("DotIndex: expected identifier")));
                    },
                };
                let ghost s1 = *self;
                proof {
                    if old(self).plain_operand((**indexee)@) {
                        Self::lemma_infer_frame(*self, *old(self), (**indexee)@, ctx.class_name());
                        assert(old(self).object_compiled(s1, (**indexee)@, dst));
                    }
                }
                let obj_ty = match self.infer_expr_type(indexee, ctx) {
                    Ok(t) => t,
                    Err(e) => return Err(e),
                };
                let resolved = match self.resolve_type(&obj_ty, "DotIndex") {
                    Ok(t) => t,
                    Err(e) => return Err(e),
                };
                if let Type::Class(id) = resolved {
                    let id = *id;
                    if id.0 >= self.type_arena.classes.len() {
                        return Err(
                            CompileError::Unsupported(String::from_str("type refers to a class that does not exist")),
                        );
                    }
                    let class = self.type_arena.get_class(id);
                    let is_inside_class = match &ctx.current_class {
                        Some(c) => *c == class.name,
                        None => false,
                    };
                    assert(is_inside_class == (ctx.class_name() == Some(class.name@)));
                    if let Some(fi) = class.find_field(field_name) {
                        proof {
                            crate::ty::lemma_first_field_index(class.fields@, field_name@);
                        }
                        if !class.fields[fi].2 && !is_inside_class {
                            return Err(
                                CompileError::TypeError(
                                    text5("field '", class.name.as_str(), ".", field_name.as_str(), "' is private"),
                                ),
                            );
                        }
                        let field_index = match class.field_index_map.get(field_name) {
                            Some(x) => *x,
                            None => {
                                return Err(
                                    CompileError::Unsupported(text3("Unknown field '", field_name.as_str(), "'")),
                                );
                            },
                        };
                        let ghost mid = *self;
                        self.emit_abc(Opcode::GETFIELD, dst, obj_reg, field_index);
                        proof {
                            Self::lemma_emitted_extends(*self, mid, instr_abc(Opcode::GETFIELD, dst, obj_reg, field_index));
                            Self::lemma_expr_trans(*old(self), mid, *self);
                        }
                        self.reg_alloc.free_to(obj_reg);
                        proof {
                            Self::lemma_infer_frame(*self, mid, (**indexee)@, ctx.class_name());
                        }
                        return Ok(());
                    }
                    if let Some(m) = class.methods.get(field_name) {
                        let method_idx = m.0;
                        if !m.3 && !is_inside_class {
                            return Err(
                                CompileError::TypeError(
                                    text5("method '", class.name.as_str(), ".", field_name.as_str(), "' is private"),
                                ),
                            );
                        }
                        let has_self = m.2.params.len() > 0 && matches!(m.2.params[0], Type::Class(_));
                        if !has_self {
                            let mut msg = text5("'", class.name.as_str(), "::", field_name.as_str(), "' is a static function and cannot be called on an instance; use '");
                            msg.append(class.name.as_str());
                            msg.append("::");
                            msg.append(field_name.as_str());
                            msg.append("(...)' instead");
                            return Err(CompileError::TypeError(msg));
                        }
                        let ghost mid = *self;
                        self.emit_abc(Opcode::GETMETHOD, dst, obj_reg, method_idx);
                        proof {
                            Self::lemma_emitted_extends(*self, mid, instr_abc(Opcode::GETMETHOD, dst, obj_reg, method_idx));
                            Self::lemma_expr_trans(*old(self), mid, *self);
                            Self::lemma_infer_frame(*self, mid, (**indexee)@, ctx.class_name());
                        }
                        return Ok(());
                    }
                    return Err(
                        CompileError::Unsupported(
                            text5("'", class.name.as_str(), "' has no field or method '", field_name.as_str(), "'"),
                        ),
                    );
                }
                Ok(())
            },
            _ => Err(CompileError::Unsupported(String::from_str("Unhandled expr node"))),
        }
    }

    fn compile_namespace_index(&mut self, node: &AstNode, dst: usize, ctx: &CompilingCtx) -> (r: Result<(), CompileError>)
        requires
            old(self).ready(),
        ensures
            r is Ok ==> final(self).type_arena == old(self).type_arena,
            r is Ok ==> final(self).extends(*old(self)) && old(self).scopes.resolves_alike(final(self).scopes),
            r is Ok ==> final(self).reg_alloc.current_top == old(self).reg_alloc.current_top,
            node@ matches AstNodeV::NamespaceIndex { indexee, index } ==> (*indexee matches AstNodeV::Identifier(ns) ==> (
            *index matches AstNodeV::Identifier(m) ==> old(self).namespace_index_outcome(
                ns,
                m,
                ctx.class_name(),
                dst,
                *final(self),
                r,
            ))),
    {
        match node {
            AstNode::NamespaceIndex { indexee, index } => {
                let method_name = match &**index {
                    AstNode::Identifier(s) => s,
                    _ => {
                        return Err(CompileError::Unsupported(String::from_str("NamespaceIndex: expected ident")));
                    },
                };
                let ns_name = match &**indexee {
                    AstNode::Identifier(s) => s,
                    _ => {
                        return Err(CompileError::Unsupported(String::from_str("NamespaceIndex: expected ident")));
                    },
                };
                proof {
                    assert((**index).view() == AstNodeV::Identifier(method_name@));
                    assert((**indexee).view() == AstNodeV::Identifier(ns_name@));
                }
                let is_public = match Self::find_namespace_in_scopes(&self.scopes, ns_name) {
                    Some(ns) => match ns.locals.get(method_name) {
                        Some(p) => p.1,
                        None => {
                            return Err(
                                CompileError::Unsupported(
                                    text5("No '", method_name.as_str(), "' in namespace '", ns_name.as_str(), "'"),
                                ),
                            );
                        },
                    },
                    None => {
                        return Err(CompileError::Unsupported(text3("No namespace '", ns_name.as_str(), "'")));
                    },
                };
                let is_inside_class = match &ctx.current_class {
                    Some(c) => *c == *ns_name,
                    None => false,
                };
                if !is_public && !is_inside_class {
                    return Err(
                        CompileError::TypeError(
                            text5("method '", ns_name.as_str(), "::", method_name.as_str(), "' is private"),
                        ),
                    );
                }
                let full_name = text3(ns_name.as_str(), "::", method_name.as_str());
                match self.scopes.resolve_local(&full_name, self.proto_depth) {
                    Some(LocalResolution::Local { reg, .. }) => {
                        self.move_into(dst, reg);
                        proof {
                            if reg != dst {
                                Self::lemma_emitted_extends(*self, *old(self), instr_abc(Opcode::MOVE, dst, reg, 0));
                            }
                        }
                        Ok(())
                    },
                    Some(LocalResolution::OuterProto { backing: Some(cv), .. }) => {
                        let ghost c = cv@;
                        self.load_constant(dst, cv);
                        proof {
                            Self::lemma_loaded_extends(*self, *old(self), dst, c);
                        }
                        Ok(())
                    },
                    _ => Err(
                        CompileError::Unsupported(
                            text5("Failed to resolve method '", ns_name.as_str(), "::", method_name.as_str(), "'"),
                        ),
                    ),
                }
            },
            _ => Err(CompileError::Unsupported(String::from_str("Unhandled expr node"))),
        }
    }

    #[verifier::rlimit(40)]
    fn compile_binary(&mut self, node: &AstNode, dst: usize, ctx: &CompilingCtx) -> (r: Result<(), CompileError>)
        requires
            old(self).ready(),
        ensures
            node@ matches AstNodeV::BinaryOperation { op, left, right } ==> (old(self).plain_operand(*left) && old(
                self,
            ).plain_operand(*right) && old(self).non_class_operand(*left, ctx.class_name()) && old(self).non_class_operand(
                *right,
                ctx.class_name(),
            ) ==> (r is Ok ==> (binary_opcode(op, false) matches Some(o) && exists|s1: LucyCompiler, s2: LucyCompiler| {
                &&& #[trigger] old(self).operands_compiled(s1, s2, *left, *right)
                &&& final(self).emitted_at_top(
                    s2,
                    instr_abc(o, dst, old(self).reg_alloc.current_top, (old(self).reg_alloc.current_top + 1) as usize),
                    old(self).reg_alloc.current_top,
                )
            }))),
            node@ matches AstNodeV::BinaryOperation { op, left, right } ==> (old(self).plain_operand(*left) && old(
                self,
            ).plain_operand(*right) && old(self).non_class_operand(*left, ctx.class_name()) && old(self).non_class_operand(
                *right,
                ctx.class_name(),
            ) ==> (r is Ok <==> binary_opcode(op, false) is Some && old(self).reg_alloc.current_top + 1 < usize::MAX)),
            node@ is BinaryOperation && numeric_expr(node@) ==> (r is Ok <==> numeric_fits(
                node@,
                old(self).reg_alloc.current_top as nat,
            )),
            node@ is BinaryOperation && numeric_expr(node@) ==> (r is Ok ==> final(self).compiled_numeric(*old(self), node@, dst)),
            r is Ok ==> final(self).type_arena == old(self).type_arena,
            r is Ok ==> final(self).extends(*old(self)) && old(self).scopes.resolves_alike(final(self).scopes),
            r is Ok ==> final(self).reg_alloc.current_top == old(self).reg_alloc.current_top,
            node@ matches AstNodeV::BinaryOperation { op, .. } ==> (binary_opcode(op, false) is None && binary_opcode(op, true) is None
                ==> r is Err),
            node@ matches AstNodeV::BinaryOperation { op, left, right } ==> (r is Ok ==> (binary_opcode(
                op,
                old(self).binary_overloaded(*left, *right, op, ctx.class_name()),
            ) matches Some(o) && final(self).cur().code@.len() > 0 && final(self).cur().code@.last() == instr_abc(
                o,
                dst,
                old(self).reg_alloc.current_top,
                (old(self).reg_alloc.current_top + 1) as usize,
            ))),
        decreases node, 1nat,
    {
        match node {
            AstNode::BinaryOperation { op, left, right } => {
                proof {
                    assert(node@ == AstNodeV::BinaryOperation {
                        op: *op,
                        left: Box::new((**left)@),
                        right: Box::new((**right)@),
                    });
                }
                proof {
                    Self::lemma_numeric_type(*self, (**left)@, ctx.class_name());
                    Self::lemma_numeric_type(*self, (**right)@, ctx.class_name());
                    if numeric_expr(node@) {
                        assert(self.non_class_operand((**left)@, ctx.class_name()));
                        assert(self.non_class_operand((**right)@, ctx.class_name()));
                    }
                }
                let lt = match self.infer_expr_type(left, ctx) {
                    Ok(t) => t,
                    Err(e) => return Err(e),
                };
                let rt = match self.infer_expr_type(right, ctx) {
                    Ok(t) => t,
                    Err(e) => return Err(e),
                };
                let l_ty = lt.inner().copy();
                let r_ty = rt.inner().copy();
                let l_reg = match self.alloc_reg() {
                    Ok(x) => x,
                    Err(e) => return Err(e),
                };
                let r_reg = match self.alloc_reg() {
                    Ok(x) => x,
                    Err(e) => return Err(e),
                };
                let ghost s0 = *self;
                match self.compile_expr(left, l_reg, ctx) {
                    Ok(()) => {},
                    Err(e) => return Err(e),
                }
                let ghost s1 = *self;
                proof {
                    if numeric_expr(node@) {
                        assert(s1.reg_alloc.current_top == s0.reg_alloc.current_top);
                    }
                }
                match self.compile_expr(right, r_reg, ctx) {
                    Ok(()) => {},
                    Err(e) => return Err(e),
                }
                proof {
                    Self::lemma_expr_trans(*old(self), s0, s1);
                    Self::lemma_expr_trans(*old(self), s1, *self);
                }
                let overload: Option<FunctionType> = match (&l_ty, &r_ty) {
                    (Type::Class(id), _) => match self.class_operator(*id, *op) {
                        Ok(o) => o,
                        Err(e) => return Err(e),
                    },
                    (_, Type::Class(id)) => match self.class_operator(*id, *op) {
                        Ok(o) => o,
                        Err(e) => return Err(e),
                    },
                    _ => None,
                };
                let vm_op = match select_binary_opcode(*op, overload.is_some()) {
                    Some(o) => o,
                    None => {
                        return Err(CompileError::TypeError(text3("Unhandled operator ", operator_text(*op), "")));
                    },
                };
                if let Some(fn_ty) = &overload {
                    if fn_ty.params.len() != 2 {
                        return Err(
                            CompileError::TypeError(
                                text3("operator '", operator_text(*op), "' must take exactly 2 parameters"),
                            ),
                        );
                    }
                    let lctx = text3("lhs of operator '", operator_text(*op), "'");
                    match self.assert_assignable(&fn_ty.params[0], &l_ty, lctx.as_str()) {
                        Ok(()) => {},
                        Err(e) => return Err(e),
                    }
                    let rctx = text3("rhs of operator '", operator_text(*op), "'");
                    match self.assert_assignable(&fn_ty.params[1], &r_ty, rctx.as_str()) {
                        Ok(()) => {},
                        Err(e) => return Err(e),
                    }
                }
                let ghost mid = *self;
                self.emit_abc(vm_op, dst, l_reg, r_reg);
                proof {
                    Self::lemma_emitted_extends(*self, mid, instr_abc(vm_op, dst, l_reg, r_reg));
                    Self::lemma_expr_trans(*old(self), mid, *self);
                }
                let ghost e = *self;
                self.reg_alloc.free_to(l_reg);
                proof {
                    assert(s0 == old(self).with_top((old(self).reg_alloc.current_top + 2) as usize));
                    assert(self.with_top(mid.reg_alloc.current_top) == e);
                    if old(self).plain_operand((**left)@) && old(self).plain_operand((**right)@) && old(self).non_class_operand(
                        (**left)@,
                        ctx.class_name(),
                    ) && old(self).non_class_operand((**right)@, ctx.class_name()) {
                        assert(s1.compiled_plain(s0, (**left)@, l_reg));
                        assert(mid.compiled_plain(s1, (**right)@, r_reg));
                        assert(old(self).operands_compiled(s1, mid, (**left)@, (**right)@));
                    }
                    if numeric_expr(node@) {
                        assert(s1.compiled_numeric(s0, (**left)@, l_reg));
                        assert(mid.compiled_numeric(s1, (**right)@, r_reg));
                        let t = old(self).reg_alloc.current_top;
                        assert(binary_opcode(*op, false) == Some(vm_op));
                        assert(self.emitted_at_top(mid, instr_abc(vm_op, dst, t, (t + 1) as usize), t));
                        // Names the intermediate states, which the definition's quantifier is triggered on.
                        assert(s1.cur() == s1.cur());
                        assert(self.compiled_numeric(*old(self), node@, dst));
                    }
                }
                Ok(())
            },
            _ => Err(CompileError::Unsupported(String::from_str("Unhandled expr node"))),
        }
    }

    #[verifier::spinoff_prover]
    fn compile_cast(&mut self, node: &AstNode, dst: usize, ctx: &CompilingCtx) -> (r: Result<(), CompileError>)
        requires
            old(self).ready(),
        ensures
            node@ matches AstNodeV::TypeCast { left, right } ==> (old(self).plain_operand(*left) ==> (r is Ok ==> exists|s1: LucyCompiler| {
                let c = ConstantValueV::Type(old(self).spec_compile_type(right));
                &&& #[trigger] old(self).operand_compiled(s1, *left)
                &&& final(self).cur().code@ == s1.cur().code@.push(
                    instr_abc(Opcode::TYCAST, dst, old(self).reg_alloc.current_top, const_slot(s1.cur().constants@, c) as usize),
                )
                &&& view_constants(final(self).cur().constants@) == with_constant(s1.cur().constants@, c)
                &&& final(self).scopes == s1.scopes
            })),
            node@ matches AstNodeV::TypeCast { left, .. } ==> (old(self).plain_operand(*left) ==> (r is Ok <==> old(
                self,
            ).reg_alloc.current_top < usize::MAX)),
            r is Ok ==> final(self).type_arena == old(self).type_arena,
            r is Ok ==> final(self).extends(*old(self)) && old(self).scopes.resolves_alike(final(self).scopes),
            r is Ok ==> final(self).reg_alloc.current_top == old(self).reg_alloc.current_top,
            node@ matches AstNodeV::TypeCast { right, .. } ==> (r is Ok ==> final(self).cur().code@.len() > 0 && (exists|k: int|
                0 <= k < final(self).cur().constants@.len() && (#[trigger] final(self).cur().constants@[k])@
                == ConstantValueV::Type(old(self).spec_compile_type(right)) && final(self).cur().code@.last() == instr_abc(
                Opcode::TYCAST,
                dst,
                old(self).reg_alloc.current_top,
                k as usize,
            ))),
        decreases node, 1nat,
    {
        match node {
            AstNode::TypeCast { left, right } => {
                let target_ty = self.compile_type(right);
                let src_reg = match self.alloc_reg() {
                    Ok(x) => x,
                    Err(e) => return Err(e),
                };
                let ghost s0 = *self;
                match self.compile_expr(left, src_reg, ctx) {
                    Ok(()) => {},
                    Err(e) => return Err(e),
                }
                let ghost s1 = *self;
                let ghost tv = target_ty@;
                let ghost target_ty_ghost = target_ty;
                let k = self.add_constant(ConstantValue::Type(target_ty));
                let ghost s2 = *self;
                self.emit_abc(Opcode::TYCAST, dst, src_reg, k);
                proof {
                    assert(tv == old(self).spec_compile_type(right@));
                    assert(self.cur().code@.last() == instr_abc(Opcode::TYCAST, dst, old(self).reg_alloc.current_top, k as usize));
                    assert(k < self.cur().constants@.len() && self.cur().constants@[k as int]@ == ConstantValueV::Type(tv));
                    assert(is_prefix(s1.cur().constants@, s2.cur().constants@));
                    assert(s2.extends(s1));
                    Self::lemma_emitted_extends(*self, s2, instr_abc(Opcode::TYCAST, dst, src_reg, k));
                    Self::lemma_expr_trans(*old(self), s0, s1);
                    Self::lemma_expr_trans(*old(self), s1, s2);
                    Self::lemma_expr_trans(*old(self), s2, *self);
                }
                self.reg_alloc.free_to(src_reg);
                proof {
                    assert(node@ == AstNodeV::TypeCast { left: Box::new((**left)@), right: right@ });
                    assert(self.cur().code@.last() == instr_abc(Opcode::TYCAST, dst, old(self).reg_alloc.current_top, k as usize));
                    assert(self.cur().constants@[k as int]@ == ConstantValueV::Type(old(self).spec_compile_type(right@)));
                    assert(s0 == old(self).with_top((old(self).reg_alloc.current_top + 1) as usize));
                    if old(self).plain_operand((**left)@) {
                        assert(s1.compiled_plain(s0, (**left)@, src_reg));
                        assert(old(self).operand_compiled(s1, (**left)@));
                        crate::compiler::lemma_first_constant_index(s1.cur().constants@, ConstantValueV::Type(tv));
                        assert(view_constants(s1.cur().constants@.push(ConstantValue::Type(target_ty_ghost))) =~= view_constants(
                            s1.cur().constants@,
                        ).push(ConstantValueV::Type(tv)));
                    }
                }
                Ok(())
            },
            _ => Err(CompileError::Unsupported(String::from_str("Unhandled expr node"))),
        }
    }
}

impl LucyCompiler {
    /// Reads `name` into register `dst`: from its register in the current
    /// function, from the constant behind it, or through an upvalue.
    fn compile_identifier(&mut self, name: &String, dst: usize) -> (r: Result<(), CompileError>)
        requires
            old(self).ready(),
        ensures
            old(self).identifier_outcome(name@, dst, *final(self), r),
    {
        match self.scopes.resolve_local(name, self.proto_depth) {
            Some(LocalResolution::Local { reg, moved, .. }) => {
                if moved {
                    return Err(CompileError::TypeError(text3("use of moved variable '", name.as_str(), "'")));
                }
                self.move_into(dst, reg);
                Ok(())
            },
            Some(LocalResolution::OuterProto { reg, ty, backing, .. }) => {
                match backing {
                    Some(cv) => {
                        self.load_constant(dst, cv);
                    },
                    None => {
                        let uv = self.capture_upvalue(name, UpvalueSource::ParentRegister(reg), ty);
                        proof {
                            crate::compiler::lemma_first_upvalue_index(old(self).cur().upvalues@, name@);
                        }
                        self.emit_abc(Opcode::GETUPVAL, dst, uv, 0);
                        proof {
                            assert(is_prefix(old(self).cur().upvalues@, self.cur().upvalues@));
                        }
                    },
                }
                Ok(())
            },
            None => Err(CompileError::TypeError(text3("undefined variable '", name.as_str(), "'"))),
        }
    }

    /// Compiles an expression so that its value ends up in register `dst`.
    pub fn compile_expr(&mut self, expr: &AstNode, dst: usize, ctx: &CompilingCtx) -> (r: Result<(), CompileError>)
        requires
            old(self).ready(),
        ensures
            expr@ matches AstNodeV::DotIndex { indexee, index } ==> (old(self).plain_operand(*indexee) ==> (*index matches AstNodeV::Identifier(
                name,
            ) ==> (dst < usize::MAX - 1 && (old(self).reg_alloc.current_top <= dst + 1 || old(
                self,
            ).reg_alloc.current_top < usize::MAX) ==> (old(self).private_member_message(
                old(self).spec_infer(*indexee, ctx.class_name()),
                name,
                ctx.class_name(),
            ) matches Some(msg) ==> (r matches Err(CompileError::TypeError(m)) && m@ == msg))))),
            expr@ matches AstNodeV::TypeCast { left, right } ==> (old(self).plain_operand(*left) ==> (r is Ok ==> exists|s1: LucyCompiler| {
                let c = ConstantValueV::Type(old(self).spec_compile_type(right));
                &&& #[trigger] old(self).operand_compiled(s1, *left)
                &&& final(self).cur().code@ == s1.cur().code@.push(
                    instr_abc(Opcode::TYCAST, dst, old(self).reg_alloc.current_top, const_slot(s1.cur().constants@, c) as usize),
                )
                &&& view_constants(final(self).cur().constants@) == with_constant(s1.cur().constants@, c)
                &&& final(self).scopes == s1.scopes
            })),
            expr@ matches AstNodeV::TypeCast { left, .. } ==> (old(self).plain_operand(*left) ==> (r is Ok <==> old(
                self,
            ).reg_alloc.current_top < usize::MAX)),
            expr@ matches AstNodeV::FunctionCall { callee, args } ==> (old(self).plain_operand(*callee) && (forall|k: int|
                0 <= k < args.len() ==> is_literal(#[trigger] args[k])) ==> (r is Ok <==> dst < usize::MAX && (args.len() == 0
                || old(self).reg_alloc.current_top + args.len() <= usize::MAX))),
            expr@ matches AstNodeV::FunctionCall { callee, args } ==> (old(self).plain_operand(*callee) && (forall|k: int|
                0 <= k < args.len() ==> is_literal(#[trigger] args[k])) ==> (r is Ok ==> exists|s1: LucyCompiler, s2: LucyCompiler| {
                &&& #[trigger] s1.compiled_plain(*old(self), *callee, dst)
                &&& #[trigger] s2.literals_loaded(s1, args, old(self).reg_alloc.current_top)
                &&& final(self).cur().code@ == s2.cur().code@.push(instr_abc(Opcode::CALL, dst, args.len() as usize, 1))
                &&& final(self).cur().constants == s2.cur().constants
            })),

            expr@ matches AstNodeV::DotIndex { indexee, .. } ==> (old(self).plain_operand(*indexee) ==> (r is Ok ==> exists|s1: LucyCompiler| {
                &&& #[trigger] old(self).object_compiled(s1, *indexee, dst)
                &&& final(self).cur().constants == s1.cur().constants
                &&& (final(self).cur().code@ == s1.cur().code@ || final(self).cur().code@.drop_last() == s1.cur().code@)
            })),
            expr@ matches AstNodeV::DotIndex { indexee, index } ==> (old(self).plain_operand(*indexee) ==> (*index matches AstNodeV::Identifier(
                name,
            ) ==> (r is Ok <==> dst < usize::MAX - 1 && (old(self).reg_alloc.current_top <= dst + 1 || old(
                self,
            ).reg_alloc.current_top < usize::MAX) && old(self).member_readable(
                old(self).spec_infer(*indexee, ctx.class_name()),
                name,
                ctx.class_name(),
            )))),
            expr@ matches AstNodeV::BinaryOperation { op, left, right } ==> (old(self).plain_operand(*left) && old(
                self,
            ).plain_operand(*right) && old(self).non_class_operand(*left, ctx.class_name()) && old(self).non_class_operand(
                *right,
                ctx.class_name(),
            ) ==> (r is Ok ==> (binary_opcode(op, false) matches Some(o) && exists|s1: LucyCompiler, s2: LucyCompiler| {
                &&& #[trigger] old(self).operands_compiled(s1, s2, *left, *right)
                &&& final(self).emitted_at_top(
                    s2,
                    instr_abc(o, dst, old(self).reg_alloc.current_top, (old(self).reg_alloc.current_top + 1) as usize),
                    old(self).reg_alloc.current_top,
                )
            }))),
            expr@ matches AstNodeV::BinaryOperation { op, left, right } ==> (old(self).plain_operand(*left) && old(
                self,
            ).plain_operand(*right) && old(self).non_class_operand(*left, ctx.class_name()) && old(self).non_class_operand(
                *right,
                ctx.class_name(),
            ) ==> (r is Ok <==> binary_opcode(op, false) is Some && old(self).reg_alloc.current_top + 1 < usize::MAX)),
            numeric_expr(expr@) ==> (r is Ok <==> numeric_fits(expr@, old(self).reg_alloc.current_top as nat)),
            numeric_expr(expr@) ==> (r is Ok ==> final(self).compiled_numeric(*old(self), expr@, dst)),
            old(self).plain_operand(expr@) ==> r is Ok && final(self).scopes == old(self).scopes && final(self).reg_alloc
                == old(self).reg_alloc && final(self).proto_depth == old(self).proto_depth && final(self).type_arena
                == old(self).type_arena,
            r is Ok ==> final(self).type_arena == old(self).type_arena,
            r is Ok ==> final(self).extends(*old(self)) && old(self).scopes.resolves_alike(final(self).scopes),
            expr@ matches AstNodeV::IntLiteral(n) ==> r is Ok && final(self).loaded_constant(
                *old(self),
                dst,
                ConstantValueV::I32(n),
            ),
            expr@ matches AstNodeV::FloatLiteral(f) ==> r is Ok && final(self).loaded_constant(
                *old(self),
                dst,
                ConstantValueV::F64(f),
            ),
            expr@ matches AstNodeV::StringLiteral(s) ==> r is Ok && final(self).loaded_constant(
                *old(self),
                dst,
                ConstantValueV::String(s),
            ),
            expr@ matches AstNodeV::Identifier(name) ==> old(self).identifier_outcome(name, dst, *final(self), r),
            expr@ is SelfExpr ==> old(self).self_outcome(dst, *final(self), r),
            expr@ matches AstNodeV::Moved(inner) ==> (*inner matches AstNodeV::Identifier(name) ==> old(self).moved_outcome(
                name,
                dst,
                *final(self),
                r,
            )),
            expr@ matches AstNodeV::NamespaceIndex { indexee, index } ==> (*indexee matches AstNodeV::Identifier(ns) ==> (
            *index matches AstNodeV::Identifier(m) ==> old(self).namespace_index_outcome(
                ns,
                m,
                ctx.class_name(),
                dst,
                *final(self),
                r,
            ))),
            expr@ matches AstNodeV::ClassLiteral { ty, fields } ==> (built_literal_class(*old(self), *ty, ctx.class_name()) is Some
                && (forall|k: int| 0 <= k < fields.len() ==> is_literal(#[trigger] fields[k].1)) ==> (r is Ok <==> (forall|k: int|
                0 <= k < fields.len() ==> #[trigger] literal_field_fits(built_literal_class(*old(self), *ty, ctx.class_name())->0, fields[k]))
                && (fields.len() == 0 || old(self).reg_alloc.current_top < usize::MAX))),
            expr@ matches AstNodeV::ClassLiteral { ty, fields } ==> (built_literal_class(*old(self), *ty, ctx.class_name()) is Some
                && (forall|k: int| 0 <= k < fields.len() ==> is_literal(#[trigger] fields[k].1)) ==> (r is Ok ==> exists|s0: LucyCompiler| {
                let cv = built_literal_class(*old(self), *ty, ctx.class_name())->0.class_proto_constant->0@;
                &&& #[trigger] final(self).literal_fields_set(
                    s0,
                    fields,
                    dst,
                    old(self).reg_alloc.current_top,
                    built_literal_class(*old(self), *ty, ctx.class_name())->0,
                )
                &&& s0.cur().code@ == old(self).cur().code@.push(
                    instr_abx(Opcode::NEWCLASS, dst, const_slot(old(self).cur().constants@, cv) as usize),
                )
                &&& view_constants(s0.cur().constants@) == with_constant(old(self).cur().constants@, cv)
                &&& s0.reg_alloc == old(self).reg_alloc
            })),
            expr@ matches AstNodeV::ClassLiteral { ty, .. } ==> old(self).class_literal_start(
                *ty,
                ctx.class_name(),
                dst,
                *final(self),
                r,
            ),
            expr@ matches AstNodeV::FunctionCall { callee, args } ==> (r is Ok ==> final(self).call_args_pass(
                *callee,
                args,
                ctx.class_name(),
            )),
            expr@ matches AstNodeV::DotIndex { index, .. } ==> (!(*index is Identifier) ==> r is Err),
            expr@ matches AstNodeV::DotIndex { indexee, index } ==> (*index matches AstNodeV::Identifier(name) ==> (r is Ok
                ==> final(self).private_member_message(final(self).spec_infer(*indexee, ctx.class_name()), name, ctx.class_name())
                is None)),
            expr@ matches AstNodeV::DotIndex { indexee, index } ==> (*index matches AstNodeV::Identifier(name) ==> (r is Ok
                ==> final(self).member_access_done(
                final(self).spec_infer(*indexee, ctx.class_name()),
                name,
                ctx.class_name(),
                dst,
                object_register(old(self).reg_alloc.current_top, dst),
            ))),
            (expr@ is BinaryOperation || expr@ is TypeCast || expr@ is ClassLiteral || expr@ is NamespaceIndex) ==> (r is Ok
                ==> final(self).reg_alloc.current_top == old(self).reg_alloc.current_top),
            expr@ is FunctionCall ==> (r is Ok ==> final(self).reg_alloc.current_top == dst + 1),
            expr@ matches AstNodeV::FunctionCall { callee, args } ==> (r is Ok ==> final(self).cur().code@.len() > 0
                && final(self).cur().code@.last() == instr_abc(
                Opcode::CALL,
                dst,
                (if *callee is DotIndex {
                    args.len() + 1
                } else {
                    args.len()
                }) as usize,
                1,
            )),
            expr@ matches AstNodeV::BinaryOperation { op, left, right } ==> (r is Ok ==> (binary_opcode(
                op,
                old(self).binary_overloaded(*left, *right, op, ctx.class_name()),
            ) matches Some(o) && final(self).cur().code@.len() > 0 && final(self).cur().code@.last() == instr_abc(
                o,
                dst,
                old(self).reg_alloc.current_top,
                (old(self).reg_alloc.current_top + 1) as usize,
            ))),
            expr@ matches AstNodeV::BinaryOperation { op, .. } ==> (binary_opcode(op, false) is None && binary_opcode(op, true) is None
                ==> r is Err),
            expr@ matches AstNodeV::TypeCast { right, .. } ==> (r is Ok ==> final(self).cur().code@.len() > 0 && (exists|k: int|
                0 <= k < final(self).cur().constants@.len() && (#[trigger] final(self).cur().constants@[k])@
                == ConstantValueV::Type(old(self).spec_compile_type(right)) && final(self).cur().code@.last() == instr_abc(
                Opcode::TYCAST,
                dst,
                old(self).reg_alloc.current_top,
                k as usize,
            ))),
            expr@ is Borrowed || expr@ is Moved || expr@ is ClassLiteral || expr@ is FunctionCall || expr@ is DotIndex
                || expr@ is NamespaceIndex || expr@ is BinaryOperation || expr@ is TypeCast || expr@ is IntLiteral
                || expr@ is FloatLiteral || expr@ is StringLiteral || expr@ is Identifier || expr@ is SelfExpr
                || r matches Err(CompileError::Unsupported(_)),
        decreases expr, 2nat,
    {
        match expr {
            AstNode::IntLiteral(n) => {
                self.load_constant(dst, ConstantValue::I32(*n));
                Ok(())
            },
            AstNode::FloatLiteral(f) => {
                self.load_constant(dst, ConstantValue::F64(*f));
                Ok(())
            },
            AstNode::StringLiteral(s) => {
                self.load_constant(dst, ConstantValue::String(s.clone()));
                Ok(())
            },
            AstNode::SelfExpr => {
                let name = String::from_str("self");
                match self.scopes.resolve_local(&name, self.proto_depth) {
                    Some(LocalResolution::Local { reg, .. }) => {
                        self.move_into(dst, reg);
                        Ok(())
                    },
                    _ => Err(CompileError::TypeError(String::from_str("'self' used outside of a method"))),
                }
            },
            AstNode::Borrowed(inner) => self.compile_expr(inner, dst, ctx),
            AstNode::Moved(_) => self.compile_moved(expr, dst, ctx),
            AstNode::Identifier(name) => self.compile_identifier(name, dst),
            AstNode::ClassLiteral { .. } => self.compile_class_literal(expr, dst, ctx),
            AstNode::FunctionCall { .. } => self.compile_call(expr, dst, ctx),
            AstNode::DotIndex { .. } => self.compile_dot_index(expr, dst, ctx),
            AstNode::NamespaceIndex { .. } => self.compile_namespace_index(expr, dst, ctx),
            AstNode::BinaryOperation { .. } => self.compile_binary(expr, dst, ctx),
            AstNode::TypeCast { .. } => self.compile_cast(expr, dst, ctx),
            _ => Err(CompileError::Unsupported(String::from_str("Unhandled expr node"))),
        }
    }
}

/// Whether compiling `s` binds something in the innermost scope, which must
/// then exist.
pub open spec fn needs_scope(s: AstNodeV) -> bool
    decreases s,
{
    match s {
        AstNodeV::VarDeclaration { .. } => true,
        AstNodeV::FunctionDeclaration { .. } => true,
        AstNodeV::ClassDefinition { .. } => true,
        AstNodeV::UseStmt { .. } => true,
        AstNodeV::StaticImportStmt { .. } => true,
        AstNodeV::Public(inner) => needs_scope(*inner),
        _ => false,
    }
}

/// Statements that the compiler does not handle.
pub open spec fn unhandled_stmt(s: AstNodeV) -> bool {
    !(s is Program || s is StaticImportStmt || s is UseStmt || s is Public || s is VarDeclaration
        || s is FunctionDeclaration || s is ClassDefinition || s is ReturnStmt || s is FunctionCall
        || s is BinaryOperation || s is Assignment)
}

/// Index of the first child of `cs` named `name`, or -1.
pub open spec fn first_child_index(cs: Seq<(String, Namespace)>, name: Seq<char>) -> int
    decreases cs.len(),
{
    if cs.len() == 0 {
        -1
    } else if cs[0].0@ == name {
        0
    } else {
        let r = first_child_index(cs.drop_first(), name);
        if r < 0 {
            -1
        } else {
            r + 1
        }
    }
}

pub proof fn lemma_first_child_index(cs: Seq<(String, Namespace)>, name: Seq<char>)
    ensures
        -1 <= first_child_index(cs, name) < cs.len(),
        first_child_index(cs, name) >= 0 ==> cs[first_child_index(cs, name)].0@ == name,
        forall|j: int| 0 <= j < cs.len() && (first_child_index(cs, name) < 0 || j < first_child_index(cs, name))
            ==> (#[trigger] cs[j]).0@ != name,
    decreases cs.len(),
{
    if cs.len() > 0 && cs[0].0@ != name {
        lemma_first_child_index(cs.drop_first(), name);
        assert forall|j: int| 0 <= j < cs.len() && (first_child_index(cs, name) < 0 || j < first_child_index(cs, name))
            implies (#[trigger] cs[j]).0@ != name by {
            if j > 0 {
                assert(cs[j] == cs.drop_first()[j - 1]);
            }
        }
    }
}

/// The namespace a `use` path names: an identifier names a namespace in
/// scope, `a::b` the child `b` of the namespace `a` names. `Some(None)`: no
/// such namespace; `None`: the path is not made of identifiers.
pub open spec fn spec_namespace_path(scopes: ScopeStack, p: AstNodeV) -> Option<Option<Namespace>>
    decreases p,
{
    match p {
        AstNodeV::Identifier(name) => Some(scopes.spec_namespace(name)),
        AstNodeV::NamespaceIndex { indexee, index } => match spec_namespace_path(scopes, *indexee) {
            Some(Some(parent)) => match *index {
                AstNodeV::Identifier(child) => {
                    let i = first_child_index(parent.children@, child);
                    Some(
                        if i >= 0 {
                            Some(parent.children@[i].1)
                        } else {
                            None
                        },
                    )
                },
                _ => None,
            },
            Some(None) => Some(None),
            None => None,
        },
        _ => None,
    }
}

fn find_child<'b>(parent: &'b Namespace, name: &String) -> (r: Option<&'b Namespace>)
    ensures
        match r {
            Some(ns) => first_child_index(parent.children@, name@) >= 0 && *ns == parent.children@[first_child_index(
                parent.children@,
                name@,
            )].1,
            None => first_child_index(parent.children@, name@) < 0,
        },
{
    let mut i: usize = 0;
    proof {
        lemma_first_child_index(parent.children@, name@);
    }
    while i < parent.children.len()
        invariant
            i <= parent.children@.len(),
            forall|j: int| 0 <= j < i ==> (#[trigger] parent.children@[j]).0@ != name@,
            -1 <= first_child_index(parent.children@, name@) < parent.children@.len(),
            first_child_index(parent.children@, name@) >= 0 ==> parent.children@[first_child_index(parent.children@, name@)].0@ == name@,
            forall|j: int| 0 <= j < parent.children@.len() && (first_child_index(parent.children@, name@) < 0 || j < first_child_index(parent.children@, name@))
                ==> (#[trigger] parent.children@[j]).0@ != name@,
        decreases parent.children.len() - i,
    {
        if parent.children[i].0 == *name {
            return Some(&parent.children[i].1);
        }
        i = i + 1;
    }
    None
}

impl LucyCompiler {
    /// The namespace a `use` path names.
    pub fn resolve_namespace_path<'b>(scopes: &'b ScopeStack, path: &AstNode) -> (r: Result<Option<&'b Namespace>, CompileError>)
        ensures
            match r {
                Ok(Some(ns)) => spec_namespace_path(*scopes, path@) == Some(Some(*ns)),
                Ok(None) => spec_namespace_path(*scopes, path@) == Some(None::<Namespace>),
                Err(e) => spec_namespace_path(*scopes, path@) is None && e is Unsupported,
            },
        decreases path,
    {
        match path {
            AstNode::Identifier(name) => Ok(Self::find_namespace_in_scopes(scopes, name)),
            AstNode::NamespaceIndex { indexee, index } => {
                let parent = match Self::resolve_namespace_path(scopes, indexee) {
                    Ok(Some(p)) => p,
                    Ok(None) => return Ok(None),
                    Err(e) => return Err(e),
                };
                match &**index {
                    AstNode::Identifier(child) => Ok(find_child(parent, child)),
                    _ => {
                        assert(!((**index)@ is Identifier));
                        Err(CompileError::Unsupported(String::from_str("Expected ident in namespace path")))
                    },
                }
            },
            _ => Err(CompileError::Unsupported(String::from_str("Unexpected node in use path"))),
        }
    }

    /// Opens a nested prototype, unless the nesting is as deep as it can be.
    fn enter_proto_checked(&mut self, name: String, arity: u8) -> (r: Result<(), CompileError>)
        ensures
            r is Err ==> old(self).proto_depth == usize::MAX && *final(self) == *old(self),
            r is Ok ==> {
                &&& final(self).proto_depth == old(self).proto_depth + 1
                &&& final(self).proto_stack@.drop_last() == old(self).proto_stack@
                &&& final(self).proto_stack@.len() == old(self).proto_stack@.len() + 1
                &&& final(self).cur().name == name
                &&& final(self).cur().arity == arity
                &&& final(self).cur().code@.len() == 0
                &&& final(self).cur().constants@.len() == 0
                &&& final(self).cur().protos@.len() == 0
                &&& final(self).cur().upvalues@.len() == 0
                &&& final(self).cur().saved_reg_top == old(self).reg_alloc.current_top
                &&& final(self).reg_alloc.current_top == 0
                &&& final(self).scopes == old(self).scopes
                &&& final(self).native_protos == old(self).native_protos
                &&& final(self).native_namespaces == old(self).native_namespaces
                &&& final(self).file_namespaces == old(self).file_namespaces
                &&& final(self).type_arena == old(self).type_arena
            },
    {
        if self.proto_depth == usize::MAX {
            return Err(CompileError::Unsupported(String::from_str("functions nested too deeply")));
        }
        self.enter_proto(name, arity);
        Ok(())
    }

    /// Compiles statements one after the other.
    fn compile_stmts(&mut self, stmts: &Vec<AstNode>, ctx: &CompilingCtx) -> (r: Result<(), CompileError>)
        requires
            old(self).ready(),
            old(self).scopes.scopes@.len() > 0,
        ensures
            r is Ok ==> final(self).extends(*old(self)),
            stmts@.len() == 0 ==> r is Ok && *final(self) == *old(self),
            r is Ok ==> forall|k: int| 0 <= k < stmts@.len() ==> !unhandled_stmt(#[trigger] stmts@[k]@),
            r is Ok && stmts@.len() > 0 ==> old(self).declared_function(*final(self), stmts@.last()@),
            r is Ok ==> exists|states: Seq<LucyCompiler>| {
                &&& #[trigger] stmts_run(states, ctx_copies(*ctx, stmts@.len()), crate::syntax::view_asts(stmts@))
                &&& states[0] == *old(self)
                &&& states.last() == *final(self)
            },
            r is Err ==> exists|states: Seq<LucyCompiler>, k: int| {
                &&& 0 <= k < stmts@.len()
                &&& #[trigger] stmts_run(states, ctx_copies(*ctx, k as nat), crate::syntax::view_asts(stmts@).take(k))
                &&& states[0] == *old(self)
                &&& states.last().stmt_outcome(*final(self), stmts@[k]@, *ctx, r)
            },
            old(self).literal_declarations(crate::syntax::view_asts(stmts@)) && old(self).reg_alloc.current_top + stmts@.len()
                <= usize::MAX ==> r is Ok,
            old(self).literal_declarations(crate::syntax::view_asts(stmts@)) && old(self).reg_alloc.current_top + stmts@.len()
                <= usize::MAX ==> final(self).scopes.scopes@.last().exports@ == exports_after(
                old(self).scopes.scopes@.last().exports@,
                crate::syntax::view_asts(stmts@),
                old(self).reg_alloc.current_top as nat,
                ctx.is_public,
            ),
        decreases stmts@, 4nat,
    {
        let mut i: usize = 0;
        let ghost mut states: Seq<LucyCompiler> = seq![*self];
        proof {
            crate::syntax::lemma_view_asts(stmts@);
            assert(crate::syntax::view_asts(stmts@).take(0) =~= Seq::<AstNodeV>::empty());
        }
        while i < stmts.len()
            invariant
                old(self).ready(),
                self.ready(),
                self.extends(*old(self)),
                self.scopes.scopes@.len() > 0,
                i <= stmts@.len(),
                forall|k: int| 0 <= k < i ==> !unhandled_stmt(#[trigger] stmts@[k]@),
                stmts@.len() == 0 ==> *self == *old(self),
                i > 0 ==> old(self).declared_function(*self, stmts@[i - 1]@),
                stmts_run(states, ctx_copies(*ctx, i as nat), crate::syntax::view_asts(stmts@).take(i as int)),
                states[0] == *old(self),
                states.last() == *self,
                old(self).literal_declarations(crate::syntax::view_asts(stmts@)) && old(self).reg_alloc.current_top
                    + stmts@.len() <= usize::MAX ==> self.reg_alloc.current_top == old(self).reg_alloc.current_top + i
                    && (forall|k: Seq<char>| #[trigger] self.scopes.spec_lookup_type(k) == old(self).scopes.spec_lookup_type(k))
                    && self.scopes.scopes@.last().exports@ == exports_after(
                    old(self).scopes.scopes@.last().exports@,
                    crate::syntax::view_asts(stmts@).take(i as int),
                    old(self).reg_alloc.current_top as nat,
                    ctx.is_public,
                ),
            decreases stmts.len() - i,
        {
            let ghost before = *self;
            proof {
                assert(decreases_to!(stmts@ => stmts@[i as int]));
                crate::syntax::lemma_view_asts(stmts@);
                if old(self).literal_declarations(crate::syntax::view_asts(stmts@)) && old(self).reg_alloc.current_top
                    + stmts@.len() <= usize::MAX {
                    assert(crate::syntax::view_asts(stmts@)[i as int] == stmts@[i as int]@);
                    if let AstNodeV::VarDeclaration { binding: BindingNodeV::IdentifierBinding { ty, .. }, .. } = declaration_part(
                        stmts@[i as int]@,
                    ) {
                        Self::lemma_compile_type_frame(*self, *old(self), ty);
                    }
                    let v = crate::syntax::view_asts(stmts@);
                    assert(v.take(i + 1).drop_last() =~= v.take(i as int));
                    assert(v.take(i + 1).last() == v[i as int]);
                }
            }
            match self.compile_stmt(&stmts[i], ctx) {
                Ok(()) => {},
                Err(e) => {
                    proof {
                        assert(stmts_run(states, ctx_copies(*ctx, i as nat), crate::syntax::view_asts(stmts@).take(i as int)));
                        assert(states.last() == before);
                        assert(before.stmt_outcome(*self, stmts@[i as int]@, *ctx, Err(e)));
                        let k: int = i as int;
                        assert(stmts_run(states, ctx_copies(*ctx, k as nat), crate::syntax::view_asts(stmts@).take(k)));
                    }
                    return Err(e);
                },
            }
            proof {
                Self::lemma_extends_trans(*old(self), before, *self);
                let n = old(self).scopes.scopes@.len() - 1;
                assert(before.scopes.scopes@[n].reg_base == old(self).scopes.scopes@[n].reg_base);
                let v = crate::syntax::view_asts(stmts@);
                let prev = states;
                states = states.push(*self);
                assert(v.take(i + 1)[i as int] == stmts@[i as int]@);
                assert forall|k: int| #![trigger v.take(i + 1)[k]] 0 <= k < i + 1 implies states[k].stmt_outcome(
                    states[k + 1],
                    v.take(i + 1)[k],
                    ctx_copies(*ctx, (i + 1) as nat)[k],
                    Ok(()),
                ) by {
                    if k < i {
                        assert(v.take(i + 1)[k] == v.take(i as int)[k]);
                        assert(prev[k] == states[k] && prev[k + 1] == states[k + 1]);
                    }
                }
                assert(stmts_run(states, ctx_copies(*ctx, (i + 1) as nat), v.take(i + 1)));
            }
            i = i + 1;
        }
        proof {
            crate::syntax::lemma_view_asts(stmts@);
            assert(crate::syntax::view_asts(stmts@).take(stmts@.len() as int) =~= crate::syntax::view_asts(stmts@));
            assert(stmts_run(states, ctx_copies(*ctx, stmts@.len()), crate::syntax::view_asts(stmts@)));
        }
        Ok(())
    }

    /// Compiles the statements of a block in a scope of their own.
    pub fn compile_body(&mut self, stmts: &Vec<AstNode>, ctx: &CompilingCtx) -> (r: Result<(), CompileError>)
        requires
            old(self).ready(),
        ensures
            r is Ok ==> final(self).extends(*old(self)),
            stmts@.len() == 0 ==> r is Ok && final(self).scopes.scopes@ == old(self).scopes.scopes@ && final(self).proto_stack
                == old(self).proto_stack && final(self).reg_alloc.current_top == old(self).reg_alloc.current_top,
            r is Ok ==> forall|k: int| 0 <= k < stmts@.len() ==> !unhandled_stmt(#[trigger] stmts@[k]@),
        decreases stmts@, 5nat,
    {
        self.enter_scope();
        match self.compile_stmts(stmts, ctx) {
            Ok(()) => {},
            Err(e) => return Err(e),
        }
        self.exit_scope();
        Ok(())
    }

    /// What compiling statement `stmt` with context `ctx` gives, `self`
    /// being the compiler before and `post` the one after, with outcome `r`.
    pub open spec fn stmt_outcome(self, post: LucyCompiler, stmt: AstNodeV, ctx: CompilingCtx, r: Result<(), CompileError>) -> bool {
        &&& (r is Ok ==> self.declared_function(post, stmt))
        &&& (declaration_part(stmt) matches AstNodeV::VarDeclaration {
                binding: BindingNodeV::IdentifierBinding { name, ty },
                init_value,
            } ==> ((init_value is None || (init_value matches Some(e) && is_literal(*e))) ==> (r is Ok ==> post.scopes.scopes@.len()
                == self.scopes.scopes@.len() && post.reg_alloc.current_top == self.reg_alloc.current_top + 1
                && (forall|k: Seq<char>| #[trigger] post.scopes.spec_lookup_type(k) == self.scopes.spec_lookup_type(k))
                && post.scopes.scopes@.last().exports@ == (if stmt is Public || ctx.is_public {
                self.scopes.scopes@.last().exports@.insert(name, self.reg_alloc.current_top)
            } else {
                self.scopes.scopes@.last().exports@
            }))))
        &&& (declaration_part(stmt) matches AstNodeV::VarDeclaration {
                binding: BindingNodeV::IdentifierBinding { ty, .. },
                init_value: Some(e),
            } ==> (is_literal(*e) ==> (r is Ok <==> self.reg_alloc.current_top < usize::MAX
                && crate::typing::spec_assignable(self.spec_compile_type(ty), literal_type(*e)))))
        &&& (stmt is BinaryOperation && numeric_expr(stmt) ==> (r is Ok <==> self.reg_alloc.current_top < usize::MAX
                && numeric_fits(stmt, (self.reg_alloc.current_top + 1) as nat)))
        &&& (stmt is BinaryOperation && numeric_expr(stmt) ==> (r is Ok ==> exists|s1: LucyCompiler| #[trigger] s1.compiled_numeric(
                self.with_top((self.reg_alloc.current_top + 1) as usize),
                stmt,
                self.reg_alloc.current_top,
            ) && post == s1.with_top(self.reg_alloc.current_top)))
        &&& (stmt matches AstNodeV::VarDeclaration { init_value, .. } ==> ((init_value is None || (init_value matches Some(e)
                && is_literal(*e))) ==> (r is Ok ==> post.reg_alloc.current_top == self.reg_alloc.current_top + 1
                && forall|k: Seq<char>| #[trigger] post.scopes.spec_lookup_type(k) == self.scopes.spec_lookup_type(k))))
        &&& (stmt matches AstNodeV::VarDeclaration { binding: BindingNodeV::IdentifierBinding { name, .. }, init_value } ==> ((
            init_value is None || (init_value matches Some(e) && is_literal(*e))) ==> (r is Ok ==> (post.scopes.spec_resolve(
                name,
            ) matches Some((l, _)) && !l.moved && l.backing is None))))
        &&& (stmt matches AstNodeV::VarDeclaration { init_value: None, .. } ==> (r is Ok ==> post.proto_stack == self.proto_stack))
        &&& (stmt matches AstNodeV::VarDeclaration { init_value: Some(e), .. } ==> (is_literal(*e) ==> (r is Ok ==> post.cur().code@ == self.cur().code@.push(
                instr_abx(
                    Opcode::LOADK,
                    self.reg_alloc.current_top,
                    const_slot(self.cur().constants@, literal_constant(*e)) as usize,
                ),
            ) && view_constants(post.cur().constants@) == with_constant(self.cur().constants@, literal_constant(*e))
                && post.proto_stack@.drop_last() == self.proto_stack@.drop_last())))
        &&& (stmt matches AstNodeV::Program(stmts) ==> (self.literal_declarations(stmts) && self.reg_alloc.current_top
                + stmts.len() <= usize::MAX ==> r is Ok))
        &&& (stmt matches AstNodeV::Program(stmts) ==> (r is Ok && ends_declaring_main(stmts) ==> ends_calling_loaded(
                post.cur().code@,
            )))
        &&& (stmt matches AstNodeV::VarDeclaration { binding, .. } ==> (!(binding is IdentifierBinding) ==> r is Err))
        &&& (stmt matches AstNodeV::VarDeclaration { binding, init_value: None } ==> (binding is IdentifierBinding ==> (r is Ok
                <==> self.reg_alloc.current_top < usize::MAX)))
        &&& (stmt matches AstNodeV::VarDeclaration { binding: BindingNodeV::IdentifierBinding { ty, .. }, init_value: Some(e) }
                ==> (is_literal(*e) ==> (r is Ok <==> self.reg_alloc.current_top < usize::MAX
                && crate::typing::spec_assignable(self.spec_compile_type(ty), literal_type(*e)))))
        &&& (stmt matches AstNodeV::Assignment { left, right } ==> (*left matches AstNodeV::Identifier(name) ==> (self.plain_operand(*right) ==> (r is Ok <==> self.assignment_ok(name, *right, ctx.class_name())))))
        &&& (stmt matches AstNodeV::Assignment { left, right } ==> (*left matches AstNodeV::Identifier(name) ==> (self.plain_operand(*right) ==> (r is Ok ==> (self.scopes.spec_resolve(name) matches Some((l, _))
                && post.compiled_plain(self, *right, l.reg))))))
        &&& (stmt matches AstNodeV::UseStmt { base_path, used } ==> (self.use_names_found(*base_path, used) && (used.len() == 0
                || self.reg_alloc.current_top + used.len() <= usize::MAX) ==> r is Ok))
        &&& (stmt matches AstNodeV::Program(stmts) ==> (r is Ok ==> forall|k: int| 0 <= k < stmts.len() ==> !unhandled_stmt(
                #[trigger] stmts[k],
            )))
        &&& (stmt == AstNodeV::Program(Seq::empty()) ==> r is Ok && post.cur().code@ == self.empty_program_code())
        &&& (r is Ok ==> post.extends(self))
        &&& (stmt matches AstNodeV::ReturnStmt { value: None } ==> {
                &&& (r is Ok <==> (ctx.return_type@ is Unknown || ctx.return_type@ is Empty))
                &&& (r is Ok ==> post.emitted(self, instr_abc(Opcode::RET, 0, 0, 0)))
                &&& (r is Err ==> (r matches Err(CompileError::TypeError(m)) && m@ == "bare return in function expecting '"@
                    + crate::ty::spec_display(ctx.return_type@) + "'"@))
            })
        &&& (stmt matches AstNodeV::ReturnStmt { value: Some(e) } ==> self.returned_value(*e, &ctx, post, r))
        &&& (stmt matches AstNodeV::StaticImportStmt { path, .. } ==> (r is Ok <==> (
                self.native_namespaces@.contains_key(path) || self.file_namespaces@.contains_key(path)))
                && (r is Err ==> (r matches Err(CompileError::MissingImport(p)) && p@ == path)))
        &&& (unhandled_stmt(stmt) ==> r matches Err(CompileError::Unsupported(_)))
        &&& ((stmt is Program || stmt is ReturnStmt || stmt is FunctionCall || stmt is BinaryOperation
                || stmt is ClassDefinition || stmt is StaticImportStmt) ==> (r is Ok
                ==> post.reg_alloc.current_top == self.reg_alloc.current_top))
        &&& (stmt is FunctionDeclaration ==> (r is Ok ==> post.reg_alloc.current_top
                == self.reg_alloc.current_top + 1))
        &&& (stmt matches AstNodeV::UseStmt { used, .. } ==> (r is Ok ==> self.used_names(post, used)))
        &&& (stmt matches AstNodeV::UseStmt { base_path, used } ==> (r is Ok ==> post.natives_bound(
                self,
                use_entries(spec_namespace_path(self.scopes, *base_path)->0->0, used),
                self.reg_alloc.current_top,
            )))
        &&& (stmt matches AstNodeV::UseStmt { base_path, used } ==> (r is Ok ==> self.use_names_found(*base_path, used)))
        &&& (stmt matches AstNodeV::UseStmt { base_path, used } ==> (!self.use_names_found(*base_path, used) ==> r matches Err(
                CompileError::Unsupported(_),
            )))
        &&& (stmt matches AstNodeV::Assignment { left, .. } ==> (*left matches AstNodeV::Identifier(name) ==> (
                (r is Ok ==> self.assignable_local(name)) && (!self.assignable_local(name) ==> r matches Err(
                CompileError::TypeError(_),
            )))))
        &&& (stmt matches AstNodeV::Assignment { left, .. } ==> (*left matches AstNodeV::Identifier(name) ==> (
                (self.assignment_refusal(name) matches Some(msg) ==> (r matches Err(CompileError::TypeError(m)) && m@ == msg)))))
        &&& (stmt matches AstNodeV::Assignment { left, .. } ==> (*left is DotIndex ==> (r is Ok ==> post.cur().code@.len()
                > 0 && sets_field(post.cur().code@.last(), self.reg_alloc.current_top))))
        &&& (stmt matches AstNodeV::Assignment { left, right } ==> (*left matches AstNodeV::Identifier(name) ==> (r is Ok ==> (
            self.scopes.spec_resolve(name) matches Some((l, _)) && self.spec_infer(*right, ctx.class_name()) matches Some(
                t,
            ) && crate::typing::spec_assignable(l.ty@, t)))))
        &&& (stmt matches AstNodeV::StaticImportStmt { namespace_alias, path } ==> (r is Ok ==> (
                post.scopes.spec_namespace(namespace_alias) matches Some(ns) && ns.locals@ == (
                if self.native_namespaces@.contains_key(path) {
                    self.native_namespaces@[path].locals@
                } else {
                    self.file_namespaces@[path].locals@
                }))))
        &&& (stmt matches AstNodeV::VarDeclaration { binding: BindingNodeV::IdentifierBinding { name, ty }, init_value }
                ==> self.declared(post, r, name, ty, init_value, ctx.class_name()))
        &&& (stmt matches AstNodeV::FunctionDeclaration { name, params, .. } ==> (r is Ok ==> (
                post.scopes.spec_resolve(name) matches Some((l, _)) && l.ty@ is Function && !l.mutable
                && crate::scope::view_backing(l.backing) == Some(
                ConstantValueV::FunctionProto(self.cur().protos@.len() as usize),
            ) && post.cur().protos@.len() == self.cur().protos@.len() + 1
                && post.cur().protos@[self.cur().protos@.len() as int].name@ == name
                && post.cur().protos@[self.cur().protos@.len() as int].arity == params.len() as u8)))
        &&& (stmt matches AstNodeV::ClassDefinition { name, .. } ==> (r is Ok ==> (post.scopes.spec_lookup_type(
                name,
            ) matches Some(t) && t@ == TypeV::Class(crate::ty::TypeId(self.type_arena.classes@.len() as usize)))))
    }

    /// Compiles a statement.
    pub fn compile_stmt(&mut self, stmt: &AstNode, ctx: &CompilingCtx) -> (r: Result<(), CompileError>)
        requires
            old(self).ready(),
            needs_scope(stmt@) ==> old(self).scopes.scopes@.len() > 0,
        ensures
            old(self).stmt_outcome(*final(self), stmt@, *ctx, r),
        decreases stmt, 3nat,
    {
        match stmt {
            AstNode::Program(stmts) => {
                proof {
                    crate::syntax::lemma_view_asts(stmts@);
                    assert(stmt@ == AstNodeV::Program(crate::syntax::view_asts(stmts@)));
                }
                self.enter_scope();
                let ghost s1 = *self;
                proof {
                    let k = "main"@;
                    let sc = self.scopes.scopes@;
                    assert(!sc.last().locals@.contains_key(k));
                    assert(crate::scope::innermost_local(sc, k) == crate::scope::innermost_local(sc.drop_last(), k));
                    crate::scope::lemma_innermost_local(old(self).scopes.scopes@, k);
                    let at = crate::scope::innermost_local(old(self).scopes.scopes@, k);
                    if at >= 0 {
                        assert(sc[at] == sc.drop_last()[at]);
                    }
                    assert(self.scopes.spec_resolve(k) == old(self).scopes.spec_resolve(k));
                    assert forall|k: Seq<char>| #[trigger] self.scopes.spec_lookup_type(k) == old(self).scopes.spec_lookup_type(k) by {
                        let s = self.scopes.scopes@;
                        assert(!s.last().types@.contains_key(k));
                        assert(crate::scope::innermost_type(s, k) == crate::scope::innermost_type(s.drop_last(), k));
                        crate::scope::lemma_innermost_type(old(self).scopes.scopes@, k);
                        let at = crate::scope::innermost_type(old(self).scopes.scopes@, k);
                        if at >= 0 {
                            assert(s[at] == s.drop_last()[at]);
                        }
                    }
                    Self::lemma_literal_declarations_frame(*self, *old(self), crate::syntax::view_asts(stmts@));
                }
                match self.compile_stmts(stmts, ctx) {
                    Ok(()) => {},
                    Err(e) => return Err(e),
                }
                proof {
                    assert forall|k: int| 0 <= k < crate::syntax::view_asts(stmts@).len() implies !unhandled_stmt(
                        #[trigger] crate::syntax::view_asts(stmts@)[k],
                    ) by {
                        assert(crate::syntax::view_asts(stmts@)[k] == stmts@[k]@);
                    }
                }
                let main_name = String::from_str("main");
                proof {
                    reveal_strlit("main");
                }
                let ghost s2 = *self;
                proof {
                    if stmts@.len() > 0 {
                        assert(crate::syntax::view_asts(stmts@).last() == stmts@.last()@);
                        let n = s1.scopes.scopes@.len() - 1;
                        assert(s2.scopes.scopes@[n].reg_base == s1.scopes.scopes@[n].reg_base);
                    }
                }
                if let Some(LocalResolution::Local { reg, .. }) = self.scopes.resolve_local(&main_name, self.proto_depth) {
                    self.emit_abc(Opcode::CALL, reg, 0, 1);
                    proof {
                        Self::lemma_emitted_extends(*self, s2, instr_abc(Opcode::CALL, reg, 0, 1));
                        Self::lemma_extends_trans(s1, s2, *self);
                        let code = self.cur().code@;
                        assert(code.last() == instr_abc(Opcode::CALL, reg, 0, 1));
                        if s2.cur().code@.len() > 0 {
                            assert(code == s2.cur().code@.push(instr_abc(Opcode::CALL, reg, 0, 1)));
                            assert(code[code.len() - 2] == s2.cur().code@.last());
                        }
                    }
                }
                let ghost s3 = *self;
                self.exit_scope();
                proof {
                    crate::scope::lemma_kept_push_pop(old(self).scopes, s1.scopes, s3.scopes, self.scopes);
                    assert(self.reg_alloc.current_top == old(self).reg_alloc.current_top);
                }
                Ok(())
            },
            AstNode::StaticImportStmt { namespace_alias, path } => {
                let ns = match self.native_namespaces.get(path) {
                    Some(ns) => ns.copy(),
                    None => match self.file_namespaces.get(path) {
                        Some(ns) => ns.copy(),
                        None => {
                            return Err(CompileError::MissingImport(path.clone()));
                        },
                    },
                };
                let ghost sd = *self;
                self.scopes.define_namespace(namespace_alias.clone(), ns);
                proof {
                    crate::scope::lemma_kept_after_bind(sd.scopes, self.scopes);
                }
                Ok(())
            },
            AstNode::UseStmt { .. } => self.compile_use(stmt),
            AstNode::Public(inner) => {
                let pub_ctx = CompilingCtx {
                    is_public: true,
                    return_type: ctx.return_type.copy(),
                    current_class: match &ctx.current_class {
                        Some(c) => Some(c.clone()),
                        None => None,
                    },
                };
                self.compile_stmt(inner, &pub_ctx)
            },
            AstNode::VarDeclaration { .. } => self.compile_var_declaration(stmt, ctx),
            AstNode::FunctionDeclaration { name, params, return_type, body, .. } => {
                proof {
                    assert(decreases_to!(stmt => body@));
                    crate::syntax::lemma_view_bindings(params@);
                }
                match self.compile_function_decl(name, params, return_type, body, false, ctx) {
                    Ok(_) => Ok(()),
                    Err(e) => Err(e),
                }
            },
            AstNode::ClassDefinition { name, members } => {
                proof {
                    assert(decreases_to!(stmt => members@));
                }
                self.compile_class_definition(name, members, ctx)
            },
            AstNode::ReturnStmt { .. } => self.compile_return(stmt, ctx),
            AstNode::FunctionCall { .. } | AstNode::BinaryOperation { .. } => {
                let scratch = match self.alloc_reg() {
                    Ok(x) => x,
                    Err(e) => return Err(e),
                };
                let ghost s0 = *self;
                match self.compile_expr(stmt, scratch, ctx) {
                    Ok(()) => {},
                    Err(e) => return Err(e),
                }
                let ghost s1 = *self;
                self.reg_alloc.free_to(scratch);
                proof {
                    if stmt@ is BinaryOperation && numeric_expr(stmt@) {
                        assert(s0 == old(self).with_top((scratch + 1) as usize));
                        assert(s1.compiled_numeric(s0, stmt@, scratch));
                        assert(*self == s1.with_top(scratch));
                    }
                }
                Ok(())
            },
            AstNode::Assignment { .. } => self.compile_assignment(stmt, ctx),
            _ => Err(CompileError::Unsupported(String::from_str("Unhandled stmt node"))),
        }
    }
}

impl LucyCompiler {
    fn compile_use(&mut self, stmt: &AstNode) -> (r: Result<(), CompileError>)
        requires
            old(self).ready(),
            old(self).scopes.scopes@.len() > 0,
        ensures
            r is Ok ==> final(self).extends(*old(self)),
            stmt@ matches AstNodeV::UseStmt { used, .. } ==> (r is Ok ==> old(self).used_names(*final(self), used)),
            stmt@ matches AstNodeV::UseStmt { base_path, used } ==> (r is Ok ==> final(self).natives_bound(
                *old(self),
                use_entries(spec_namespace_path(old(self).scopes, *base_path)->0->0, used),
                old(self).reg_alloc.current_top,
            )),
            stmt@ matches AstNodeV::UseStmt { base_path, used } ==> (r is Ok ==> old(self).use_names_found(*base_path, used)),
            stmt@ matches AstNodeV::UseStmt { base_path, used } ==> (!old(self).use_names_found(*base_path, used) ==> r matches Err(
                CompileError::Unsupported(_),
            )),
            stmt@ matches AstNodeV::UseStmt { base_path, used } ==> (old(self).use_names_found(*base_path, used) && (used.len() == 0
                || old(self).reg_alloc.current_top + used.len() <= usize::MAX) ==> r is Ok),
    {
        match stmt {
            AstNode::UseStmt { base_path, used } => {
                let ghost uv = crate::syntax::view_used(used@);
                proof {
                    assert(stmt@ == AstNodeV::UseStmt { base_path: Box::new((**base_path)@), used: uv });
                }
                let mut resolved: Vec<(String, usize)> = Vec::new();
                {
                    let namespace = match Self::resolve_namespace_path(&self.scopes, base_path) {
                        Ok(Some(ns)) => ns,
                        Ok(None) => {
                            return Err(CompileError::Unsupported(String::from_str("Cannot resolve use path")));
                        },
                        Err(e) => return Err(e),
                    };
                    let mut i: usize = 0;
                    while i < used.len()
                        invariant
                            resolved@.len() == i,
                            i <= used@.len(),
                            forall|k: int| 0 <= k < i ==> (#[trigger] resolved@[k]).0@ == used@[k].1@,
                            uv == crate::syntax::view_used(used@),
                            forall|k: int| 0 <= k < i ==> #[trigger] namespace.locals@.contains_key(uv[k].0),
                            forall|k: int| 0 <= k < i ==> (#[trigger] resolved@[k]).1 == namespace.locals@[uv[k].0].0,
                            spec_namespace_path(old(self).scopes, (**base_path)@) == Some(Some(*namespace)),
                            uv.len() == used@.len(),
                            stmt@ == (AstNodeV::UseStmt { base_path: Box::new((**base_path)@), used: uv }),
                        decreases used.len() - i,
                    {
                        match namespace.locals.get(&used[i].0) {
                            Some(p) => {
                                resolved.push((used[i].1.clone(), p.0));
                            },
                            None => {
                                assert(!namespace.locals@.contains_key(uv[i as int].0));
                                proof {
                                    if old(self).use_names_found((**base_path)@, uv) {
                                        let ns = spec_namespace_path(old(self).scopes, (**base_path)@)->0->0;
                                        assert(ns == *namespace);
                                        assert(ns.locals@.contains_key(uv[i as int].0));
                                    }
                                }
                                return Err(
                                    CompileError::Unsupported(
                                        text3("'", used[i].0.as_str(), "' not found in namespace"),
                                    ),
                                );
                            },
                        }
                        i = i + 1;
                    }
                    assert(old(self).use_names_found((**base_path)@, uv));
                }
                let ghost nsv = spec_namespace_path(old(self).scopes, (**base_path)@)->0->0;
                let ghost entries = use_entries(nsv, uv);
                proof {
                    assert(entries.take(0) =~= Seq::<(Seq<char>, usize)>::empty());
                    assert forall|k: int| 0 <= k < used@.len() implies #[trigger] entries[k] == (resolved@[k].0@, resolved@[k].1) by {
                        assert(uv[k].1 == used@[k].1@);
                    }
                }
                let mut j: usize = 0;
                while j < resolved.len()
                    invariant
                        old(self).ready(),
                        self.ready(),
                        self.extends(*old(self)),
                        self.scopes.scopes@.len() > 0,
                        resolved@.len() == used@.len(),
                        j <= resolved@.len(),
                        forall|k: int| 0 <= k < resolved@.len() ==> (#[trigger] resolved@[k]).0@ == used@[k].1@,
                        self.reg_alloc.current_top == old(self).reg_alloc.current_top + j,
                        forall|k: int| 0 <= k < j ==> #[trigger] binds_native(self.scopes, used@[k].1@),
                        old(self).use_names_found((**base_path)@, uv),
                        uv.len() == used@.len(),
                        j < resolved@.len() || j == resolved@.len(),
                        stmt@ == (AstNodeV::UseStmt { base_path: Box::new((**base_path)@), used: uv }),
                        entries.len() == used@.len(),
                        forall|k: int| 0 <= k < used@.len() ==> #[trigger] entries[k] == (resolved@[k].0@, resolved@[k].1),
                        self.natives_bound(*old(self), entries.take(j as int), old(self).reg_alloc.current_top),
                    decreases resolved.len() - j,
                {
                    let native_idx = resolved[j].1;
                    let ghost s0 = *self;
                    let k = self.add_constant(ConstantValue::NativeFunctionProto(native_idx));
                    proof {
                        crate::compiler::lemma_first_constant_index(s0.cur().constants@, ConstantValueV::NativeFunctionProto(native_idx));
                        assert(view_constants(s0.cur().constants@.push(ConstantValue::NativeFunctionProto(native_idx))) =~= view_constants(
                            s0.cur().constants@,
                        ).push(ConstantValueV::NativeFunctionProto(native_idx)));
                    }
                    let dst = match self.alloc_reg() {
                        Ok(x) => x,
                        Err(e) => return Err(e),
                    };
                    let ghost s1 = *self;
                    self.emit_abx(Opcode::LOADK, dst, k);
                    proof {
                        assert(is_prefix(s0.cur().constants@, s1.cur().constants@));
                        Self::lemma_emitted_extends(*self, s1, instr_abx(Opcode::LOADK, dst, k));
                        Self::lemma_extends_trans(*old(self), s0, s1);
                        Self::lemma_extends_trans(*old(self), s1, *self);
                    }
                    let ghost sd = *self;
                    self.scopes.define_local(
                        resolved[j].0.clone(),
                        dst,
                        Type::Unknown,
                        Some(ConstantValue::NativeFunctionProto(native_idx)),
                        false,
                    );
                    proof {
                        crate::scope::lemma_kept_after_bind(sd.scopes, self.scopes);
                        crate::scope::lemma_kept_trans(
                            old(self).scopes,
                            sd.scopes,
                            self.scopes,
                            old(self).scopes.scopes@.len() - 1,
                        );
                        assert(sd.scopes == s0.scopes);
                        assert forall|k: int| 0 <= k < j + 1 implies #[trigger] binds_native(self.scopes, used@[k].1@) by {
                            if used@[k].1@ != used@[j as int].1@ {
                                assert(binds_native(s0.scopes, used@[k].1@));
                                assert(sd.scopes.spec_resolve(used@[k].1@) == self.scopes.spec_resolve(used@[k].1@));
                            } else {
                                assert(resolved@[j as int].0@ == used@[j as int].1@);
                            }
                        }
                        let top = old(self).reg_alloc.current_top;
                        assert(self.native_bound(s0, entries[j as int].0, entries[j as int].1, (top + j) as usize));
                        assert(entries.take(j + 1).drop_last() =~= entries.take(j as int));
                        assert(entries.take(j + 1).last() == entries[j as int]);
                        // Names the intermediate states, which the definition's quantifier is triggered on.
                        assert(s0.cur() == s0.cur());
                        assert(self.natives_bound(*old(self), entries.take(j + 1), top));
                    }
                    j = j + 1;
                }
                proof {
                    let uv = crate::syntax::view_used(used@);
                    assert(uv.len() == used@.len());
                    assert forall|k: int| 0 <= k < uv.len() implies #[trigger] binds_native(self.scopes, uv[k].1) by {
                        assert(uv[k].1 == used@[k].1@);
                        assert(binds_native(self.scopes, used@[k].1@));
                    }
                    assert(self.reg_alloc.current_top == old(self).reg_alloc.current_top + uv.len());
                    assert(old(self).used_names(*self, uv));
                    assert(stmt@ matches AstNodeV::UseStmt { used: u, .. } && u == uv);
                    assert(entries.take(used@.len() as int) =~= entries);
                }
                Ok(())
            },
            _ => Err(CompileError::Unsupported(String::from_str("Unhandled stmt node"))),
        }
    }

    fn compile_var_declaration(&mut self, stmt: &AstNode, ctx: &CompilingCtx) -> (r: Result<(), CompileError>)
        requires
            old(self).ready(),
            old(self).scopes.scopes@.len() > 0,
        ensures
            stmt@ matches AstNodeV::VarDeclaration { binding, .. } ==> (!(binding is IdentifierBinding) ==> r is Err),
            stmt@ matches AstNodeV::VarDeclaration { binding, init_value: None } ==> (binding is IdentifierBinding ==> (r is Ok
                <==> old(self).reg_alloc.current_top < usize::MAX)),
            stmt@ matches AstNodeV::VarDeclaration { binding: BindingNodeV::IdentifierBinding { ty, .. }, init_value: Some(e) }
                ==> (is_literal(*e) ==> (r is Ok <==> old(self).reg_alloc.current_top < usize::MAX
                && crate::typing::spec_assignable(old(self).spec_compile_type(ty), literal_type(*e)))),
            r is Ok ==> final(self).extends(*old(self)),
            stmt@ matches AstNodeV::VarDeclaration { binding: BindingNodeV::IdentifierBinding { name, ty }, init_value }
                ==> old(self).declared(*final(self), r, name, ty, init_value, ctx.class_name()),
            stmt@ matches AstNodeV::VarDeclaration { init_value, .. } ==> ((init_value is None || (init_value matches Some(e)
                && is_literal(*e))) ==> (r is Ok ==> final(self).reg_alloc.current_top == old(self).reg_alloc.current_top + 1
                && forall|k: Seq<char>| #[trigger] final(self).scopes.spec_lookup_type(k) == old(self).scopes.spec_lookup_type(k))),
            stmt@ matches AstNodeV::VarDeclaration { binding: BindingNodeV::IdentifierBinding { name, .. }, init_value } ==> ((
            init_value is None || (init_value matches Some(e) && is_literal(*e))) ==> (r is Ok ==> (final(self).scopes.spec_resolve(
                name,
            ) matches Some((l, _)) && !l.moved && l.backing is None))),
            stmt@ matches AstNodeV::VarDeclaration { init_value: None, .. } ==> (r is Ok ==> final(self).proto_stack == old(
                self,
            ).proto_stack),
            stmt@ matches AstNodeV::VarDeclaration { init_value: Some(e), .. } ==> (is_literal(*e) ==> (r is Ok ==> final(self).cur().code@ == old(self).cur().code@.push(
                instr_abx(
                    Opcode::LOADK,
                    old(self).reg_alloc.current_top,
                    const_slot(old(self).cur().constants@, literal_constant(*e)) as usize,
                ),
            ) && view_constants(final(self).cur().constants@) == with_constant(old(self).cur().constants@, literal_constant(*e))
                && final(self).proto_stack@.drop_last() == old(self).proto_stack@.drop_last())),
            stmt@ matches AstNodeV::VarDeclaration { binding: BindingNodeV::IdentifierBinding { name, .. }, init_value } ==> ((
            init_value is None || (init_value matches Some(e) && is_literal(*e))) ==> (r is Ok ==> final(self).scopes.scopes@.len()
                == old(self).scopes.scopes@.len() && final(self).scopes.scopes@.last().exports@ == (if ctx.is_public {
                old(self).scopes.scopes@.last().exports@.insert(name, old(self).reg_alloc.current_top)
            } else {
                old(self).scopes.scopes@.last().exports@
            }))),
        decreases stmt, 2nat,
    {
        match stmt {
            AstNode::VarDeclaration { binding, init_value } => match binding {
                BindingNode::IdentifierBinding { name, ty } => {
                    proof {
                        assert(stmt@ == AstNodeV::VarDeclaration {
                            binding: BindingNodeV::IdentifierBinding { name: name@, ty: ty@ },
                            init_value: crate::syntax::view_opt_ast(*init_value),
                        });
                    }
                    let dst = match self.alloc_reg() {
                        Ok(x) => x,
                        Err(e) => return Err(e),
                    };
                    let declared_ty = self.compile_type(ty);
                    let is_mutable = declared_ty.is_mutable();
                    let resolved_ty = if matches!(declared_ty, Type::Unknown) {
                        match init_value {
                            Some(expr) => match self.infer_expr_type(expr, ctx) {
                                Ok(t) => t,
                                Err(e) => return Err(e),
                            },
                            None => Type::Unknown,
                        }
                    } else {
                        declared_ty.copy()
                    };
                    let ghost sd = *self;
                    proof {
                        Self::lemma_compile_type_frame(*old(self), sd, ty@);
                        match init_value {
                            Some(e) => {
                                Self::lemma_infer_frame(*old(self), sd, (**e)@, ctx.class_name());
                            },
                            None => {},
                        }
                        assert(crate::syntax::view_opt_ast(*init_value) == match init_value {
                            Some(e) => Some(Box::new((**e)@)),
                            None => None::<Box<AstNodeV>>,
                        });
                        assert(resolved_ty@ == old(self).spec_declared_type(ty@, crate::syntax::view_opt_ast(*init_value), ctx.class_name()));
                    }
                    if ctx.is_public {
                        self.scopes.define_export(name.clone(), dst, resolved_ty, None, is_mutable);
                    } else {
                        self.scopes.define_local(name.clone(), dst, resolved_ty, None, is_mutable);
                    }
                    proof {
                        crate::scope::lemma_kept_after_bind(sd.scopes, self.scopes);
                        assert(self.extends(*old(self)));
                        sd.scopes.lemma_types_kept_lookup(self.scopes);
                    }
                    match init_value {
                        Some(expr) => {
                            let init_ty = match self.infer_expr_type(expr, ctx) {
                                Ok(t) => t,
                                Err(e) => return Err(e),
                            };
                            if !matches!(declared_ty, Type::Unknown) {
                                let context = text3("assignment to '", name.as_str(), "'");
                                match self.assert_assignable(&declared_ty, &init_ty, context.as_str()) {
                                    Ok(()) => {},
                                    Err(e) => return Err(e),
                                }
                            }
                            let ghost s0 = *self;
                            match self.compile_expr(expr, dst, ctx) {
                                Ok(()) => {},
                                Err(e) => return Err(e),
                            }
                            proof {
                                Self::lemma_extends_trans(*old(self), s0, *self);
                                assert(s0.scopes.resolves_alike(self.scopes));
                                assert(self.scopes.spec_resolve(name@) == s0.scopes.spec_resolve(name@) || (s0.scopes.spec_resolve(name@) matches Some(
                                    (l, d),
                                ) && self.scopes.spec_resolve(name@) == Some((crate::scope::Local { moved: true, ..l }, d))));
                            }
                            Ok(())
                        },
                        None => Ok(()),
                    }
                },
                _ => Err(CompileError::Unsupported(String::from_str("Unhandled binding in VarDeclaration"))),
            },
            _ => Err(CompileError::Unsupported(String::from_str("Unhandled stmt node"))),
        }
    }

    fn compile_return(&mut self, stmt: &AstNode, ctx: &CompilingCtx) -> (r: Result<(), CompileError>)
        requires
            old(self).ready(),
        ensures
            r is Ok ==> final(self).extends(*old(self)),
            stmt@ matches AstNodeV::ReturnStmt { value: None } ==> {
                &&& (r is Ok <==> (ctx.return_type@ is Unknown || ctx.return_type@ is Empty))
                &&& (r is Ok ==> final(self).emitted(*old(self), instr_abc(Opcode::RET, 0, 0, 0)))
                &&& (r is Err ==> (r matches Err(CompileError::TypeError(m)) && m@ == "bare return in function expecting '"@
                    + crate::ty::spec_display(ctx.return_type@) + "'"@))
            },
            r is Ok ==> final(self).reg_alloc.current_top == old(self).reg_alloc.current_top,
            stmt@ matches AstNodeV::ReturnStmt { value: Some(e) } ==> old(self).returned_value(*e, ctx, *final(self), r),
        decreases stmt, 2nat,
    {
        match stmt {
            AstNode::ReturnStmt { value } => match value {
                Some(expr) => {
                    assert(crate::syntax::view_opt_ast(*value) == Some(Box::new((**expr)@)));
                    assert(stmt@ == AstNodeV::ReturnStmt { value: Some(Box::new((**expr)@)) });
                    let src = match self.alloc_reg() {
                        Ok(x) => x,
                        Err(e) => return Err(e),
                    };
                    proof {
                        Self::lemma_infer_frame(*self, *old(self), (**expr)@, ctx.class_name());
                        Self::lemma_numeric_type(*self, (**expr)@, ctx.class_name());
                    }
                    let ret_ty = match self.infer_expr_type(expr, ctx) {
                        Ok(t) => t,
                        Err(e) => return Err(e),
                    };
                    if !matches!(ctx.return_type, Type::Unknown) {
                        match self.assert_assignable(&ctx.return_type, &ret_ty, "return statement") {
                            Ok(()) => {},
                            Err(e) => return Err(e),
                        }
                    }
                    let ghost s0 = *self;
                    match self.compile_expr(expr, src, ctx) {
                        Ok(()) => {},
                        Err(e) => return Err(e),
                    }
                    let ghost s1 = *self;
                    self.emit_abc(Opcode::RET, src, 1, 0);
                    proof {
                        Self::lemma_emitted_extends(*self, s1, instr_abc(Opcode::RET, src, 1, 0));
                        Self::lemma_extends_trans(*old(self), s0, s1);
                        Self::lemma_extends_trans(*old(self), s1, *self);
                    }
                    self.reg_alloc.free_to(src);
                    proof {
                        if numeric_expr((**expr)@) {
                            assert(s0 == old(self).with_top((src + 1) as usize));
                            assert(s1.reg_alloc == s0.reg_alloc);
                            assert(s1.compiled_numeric(old(self).with_top((src + 1) as usize), (**expr)@, src));
                        }
                    }
                    Ok(())
                },
                None => {
                    if !matches!(ctx.return_type, Type::Unknown | Type::Empty) {
                        let t = ctx.return_type.display_string();
                        return Err(
                            CompileError::TypeError(text3("bare return in function expecting '", t.as_str(), "'")),
                        );
                    }
                    self.emit_abc(Opcode::RET, 0, 0, 0);
                    proof {
                        Self::lemma_emitted_extends(*self, *old(self), instr_abc(Opcode::RET, 0, 0, 0));
                    }
                    Ok(())
                },
            },
            _ => Err(CompileError::Unsupported(String::from_str("Unhandled stmt node"))),
        }
    }

    fn compile_assignment(&mut self, stmt: &AstNode, ctx: &CompilingCtx) -> (r: Result<(), CompileError>)
        requires
            old(self).ready(),
        ensures
            r is Ok ==> final(self).extends(*old(self)),
            stmt@ matches AstNodeV::Assignment { left, .. } ==> (*left matches AstNodeV::Identifier(name) ==> (
                (r is Ok ==> old(self).assignable_local(name)) && (!old(self).assignable_local(name) ==> r matches Err(
                CompileError::TypeError(_),
            )))),
            stmt@ matches AstNodeV::Assignment { left, .. } ==> (*left matches AstNodeV::Identifier(name) ==> (
                (old(self).assignment_refusal(name) matches Some(msg) ==> (r matches Err(CompileError::TypeError(m)) && m@ == msg)))),
            stmt@ matches AstNodeV::Assignment { left, .. } ==> (*left is DotIndex ==> (r is Ok ==> final(self).cur().code@.len()
                > 0 && sets_field(final(self).cur().code@.last(), old(self).reg_alloc.current_top))),
            stmt@ matches AstNodeV::Assignment { left, right } ==> (*left matches AstNodeV::Identifier(name) ==> (r is Ok ==> (
            old(self).scopes.spec_resolve(name) matches Some((l, _)) && old(self).spec_infer(*right, ctx.class_name()) matches Some(
                t,
            ) && crate::typing::spec_assignable(l.ty@, t)))),
            stmt@ matches AstNodeV::Assignment { left, right } ==> (*left matches AstNodeV::Identifier(name) ==> (old(
                self,
            ).plain_operand(*right) ==> (r is Ok <==> old(self).assignment_ok(name, *right, ctx.class_name())))),
            stmt@ matches AstNodeV::Assignment { left, right } ==> (*left matches AstNodeV::Identifier(name) ==> (old(
                self,
            ).plain_operand(*right) ==> (r is Ok ==> (old(self).scopes.spec_resolve(name) matches Some((l, _))
                && final(self).compiled_plain(*old(self), *right, l.reg))))),
        decreases stmt, 2nat,
    {
        match stmt {
            AstNode::Assignment { left, right } => match &**left {
                AstNode::Identifier(name) => match self.scopes.resolve_local(name, self.proto_depth) {
                    Some(LocalResolution::Local { reg, ty, mutable, .. }) => {
                        if !mutable {
                            return Err(
                                CompileError::TypeError(
                                    text3("cannot assign to immutable variable '", name.as_str(), "'"),
                                ),
                            );
                        }
                        assert(old(self).assignable_local(name@));
                        assert(stmt@ == AstNodeV::Assignment {
                            left: Box::new(AstNodeV::Identifier(name@)),
                            right: Box::new((**right)@),
                        });
                        let rhs_ty = match self.infer_expr_type(right, ctx) {
                            Ok(t) => t,
                            Err(e) => return Err(e),
                        };
                        let context = text3("assignment to '", name.as_str(), "'");
                        match self.assert_assignable(&ty, &rhs_ty, context.as_str()) {
                            Ok(()) => {},
                            Err(e) => return Err(e),
                        }
                        self.compile_expr(right, reg, ctx)
                    },
                    Some(LocalResolution::OuterProto { .. }) => Err(
                        CompileError::TypeError(String::from_str("cannot assign to variable captured from outer scope")),
                    ),
                    None => Err(CompileError::TypeError(text3("undefined variable '", name.as_str(), "'"))),
                },
                AstNode::DotIndex { indexee, index } => {
                    assert((**left)@ is DotIndex);
                    let obj_reg = match self.alloc_reg() {
                        Ok(x) => x,
                        Err(e) => return Err(e),
                    };
                    let ghost s0 = *self;
                    match self.compile_expr(indexee, obj_reg, ctx) {
                        Ok(()) => {},
                        Err(e) => return Err(e),
                    }
                    proof {
                        Self::lemma_extends_trans(*old(self), s0, *self);
                    }
                    let field_name = match &**index {
                        AstNode::Identifier(s) => s,
                        _ => {
                            return Err(
                                CompileError::Unsupported(String::from_str("DotIndex assignment: expected ident")),
                            );
                        },
                    };
                    let obj_ty = match self.infer_expr_type(indexee, ctx) {
                        Ok(t) => t,
                        Err(e) => return Err(e),
                    };
                    if let Type::Class(id) = &obj_ty {
                        if id.0 >= self.type_arena.classes.len() {
                            return Err(
                                CompileError::Unsupported(
                                    String::from_str("type refers to a class that does not exist"),
                                ),
                            );
                        }
                        let field_ty = {
                            let class = self.type_arena.get_class(*id);
                            match class.find_field(field_name) {
                                Some(fi) => {
                                    proof {
                                        crate::ty::lemma_first_field_index(class.fields@, field_name@);
                                    }
                                    Some(class.fields[fi].1.copy())
                                },
                                None => None,
                            }
                        };
                        if let Some(ft) = field_ty {
                            let rhs_ty = match self.infer_expr_type(right, ctx) {
                                Ok(t) => t,
                                Err(e) => return Err(e),
                            };
                            let context = text3("assignment to field '", field_name.as_str(), "'");
                            match self.assert_assignable(&ft, &rhs_ty, context.as_str()) {
                                Ok(()) => {},
                                Err(e) => return Err(e),
                            }
                        }
                    }
                    let val_reg = match self.alloc_reg() {
                        Ok(x) => x,
                        Err(e) => return Err(e),
                    };
                    let ghost s1 = *self;
                    match self.compile_expr(right, val_reg, ctx) {
                        Ok(()) => {},
                        Err(e) => return Err(e),
                    }
                    proof {
                        Self::lemma_extends_trans(*old(self), s1, *self);
                    }
                    let field_index = match &obj_ty {
                        Type::Class(id) => {
                            if id.0 >= self.type_arena.classes.len() {
                                return Err(
                                    CompileError::Unsupported(
                                        String::from_str("type refers to a class that does not exist"),
                                    ),
                                );
                            }
                            match self.type_arena.get_class(*id).field_index_map.get(field_name) {
                                Some(x) => *x,
                                None => {
                                    return Err(
                                        CompileError::Unsupported(
                                            text3("Unknown field '", field_name.as_str(), "'"),
                                        ),
                                    );
                                },
                            }
                        },
                        _ => {
                            return Err(
                                CompileError::Unsupported(String::from_str("assignment to a field of a non-class value")),
                            );
                        },
                    };
                    let ghost s2 = *self;
                    self.emit_abc(Opcode::SETFIELD, obj_reg, val_reg, field_index);
                    proof {
                        Self::lemma_emitted_extends(*self, s2, instr_abc(Opcode::SETFIELD, obj_reg, val_reg, field_index));
                        Self::lemma_extends_trans(*old(self), s2, *self);
                    }
                    self.reg_alloc.free_to(obj_reg);
                    Ok(())
                },
                _ => Err(CompileError::Unsupported(String::from_str("Unsupported assignment target"))),
            },
            _ => Err(CompileError::Unsupported(String::from_str("Unhandled stmt node"))),
        }
    }
}

impl LucyCompiler {
    /// Compiles a function: its body into a new prototype nested in the
    /// current one; unless it is a method, also a register that holds it,
    /// bound to `name` (exported in a public context). Gives the register,
    /// the index of the prototype and the function's type.
    pub fn compile_function_decl(
        &mut self,
        name: &String,
        params: &Vec<BindingNode>,
        return_type: &TypeNode,
        body: &Vec<AstNode>,
        is_method: bool,
        ctx: &CompilingCtx,
    ) -> (r: Result<(usize, usize, FunctionType), CompileError>)
        requires
            old(self).ready(),
            old(self).scopes.scopes@.len() > 0,
        ensures
            r is Ok ==> final(self).extends(*old(self)),
            r is Ok ==> final(self).reg_alloc.current_top == old(self).reg_alloc.current_top + if is_method {
                0nat
            } else {
                1nat
            },
            r matches Ok((dst, idx, ft)) ==> {
                &&& idx == old(self).cur().protos@.len()
                &&& final(self).cur().protos@.len() == idx + 1
                &&& final(self).cur().protos@[idx as int].name@ == name@
                &&& final(self).cur().protos@[idx as int].arity == params@.len() as u8
                &&& final(self).cur().protos@[idx as int].code@.len() > 0
                &&& final(self).cur().protos@[idx as int].code@.last() == instr_abc(Opcode::RET, 0, 0, 0)
                &&& !is_method ==> (final(self).scopes.spec_resolve(name@) matches Some((l, d)) && l.reg == dst
                    && d == old(self).scopes.scopes@.last().proto_depth && l.ty@ == TypeV::Function(Box::new(ft@)) && crate::scope::view_backing(l.backing) == Some(
                    ConstantValueV::FunctionProto(idx),
                ) && !l.mutable && !l.moved)
                &&& !is_method ==> dst == old(self).reg_alloc.current_top && final(self).cur().code@.len() > 0
                    && final(self).cur().code@.last() == instr_abx(
                    Opcode::LOADK,
                    dst,
                    const_slot(old(self).cur().constants@, ConstantValueV::FunctionProto(idx)) as usize,
                )
                &&& ft@.params.len() == params@.len()
                &&& forall|j: int| 0 <= j < params@.len() ==> (params@[j] matches BindingNode::IdentifierBinding { ty, .. }
                    ==> #[trigger] ft@.params[j] == old(self).spec_compile_type(ty@))
                &&& old(self).declared_return(return_type@, ctx.class_name()) matches Some(d) && (!(d is Unknown)
                    ==> *ft@.return_type == d)
            },
            !old(self).params_typed(params@) ==> r is Err,
            old(self).declared_return(return_type@, ctx.class_name()) is None ==> r is Err,
            old(self).proto_depth == usize::MAX ==> r is Err,
            old(self).proto_depth < usize::MAX && params@.len() < usize::MAX && body@.len() == 0 && old(self).params_typed(params@)
                && old(self).declared_return(return_type@, ctx.class_name()) is Some && (!is_method ==> old(
                self,
            ).reg_alloc.current_top < usize::MAX) ==> r is Ok,
            r is Ok ==> forall|k: int| 0 <= k < body@.len() ==> !unhandled_stmt(#[trigger] body@[k]@),
            r matches Ok((_, idx, _)) ==> exists|states: Seq<LucyCompiler>, ctxs: Seq<CompilingCtx>| {
                &&& #[trigger] stmts_run(states, ctxs, crate::syntax::view_asts(body@))
                &&& states[0].cur().name@ == name@ && states[0].cur().code@.len() == 0 && states[0].cur().constants@.len() == 0
                &&& states[0].reg_alloc.current_top == params@.len()
                &&& states[0].proto_depth == old(self).proto_depth + 1
                &&& states[0].scopes.scopes@.drop_last() == old(self).scopes.scopes@
                &&& forall|k: int| 0 <= k < ctxs.len() ==> !(#[trigger] ctxs[k]).is_public && ctxs[k].class_name() == ctx.class_name()
                    && (!(old(self).declared_return(return_type@, ctx.class_name())->0 is Unknown)
                    ==> ctxs[k].return_type@ == old(self).declared_return(return_type@, ctx.class_name())->0)
                &&& final(self).cur().protos@[idx as int].code@ == states.last().cur().code@.push(instr_abc(Opcode::RET, 0, 0, 0))
                &&& final(self).cur().protos@[idx as int].constants == states.last().cur().constants
            },
            r matches Ok((dst, idx, _)) ==> (!is_method ==> final(self).cur().code@ == old(self).cur().code@.push(
                instr_abx(Opcode::LOADK, dst, const_slot(old(self).cur().constants@, ConstantValueV::FunctionProto(idx)) as usize),
            ) && view_constants(final(self).cur().constants@) == with_constant(
                old(self).cur().constants@,
                ConstantValueV::FunctionProto(idx),
            ) && final(self).cur().upvalues == old(self).cur().upvalues),
            r is Ok ==> (is_method && body@.len() == 0 ==> final(self).scopes.scopes@ == old(self).scopes.scopes@),
            r matches Ok((dst, _, _)) ==> (is_method ==> dst == 0 && final(self).cur().code == old(self).cur().code
                && final(self).cur().constants == old(self).cur().constants && final(self).cur().upvalues == old(
                self,
            ).cur().upvalues),
            r matches Ok((_, idx, _)) ==> (body@.len() == 0 ==> final(self).cur().protos@[idx as int].code@ == seq![
                instr_abc(Opcode::RET, 0, 0, 0),
            ] && final(self).cur().protos@[idx as int].constants@.len() == 0),
            r matches Ok((_, idx, _)) ==> (body@.len() == 1 && (body@[0]@ matches AstNodeV::ReturnStmt { value: Some(e) }
                && numeric_expr(*e)) ==> exists|p: LucyCompiler, sx: LucyCompiler| {
                &&& #[trigger] sx.compiled_numeric(p, value_returned(body@[0]@), params@.len() as usize)
                &&& p.cur().code@.len() == 0 && p.cur().constants@.len() == 0
                &&& p.reg_alloc.current_top == params@.len() + 1
                &&& final(self).cur().protos@[idx as int].code@ == sx.cur().code@.push(
                    instr_abc(Opcode::RET, params@.len() as usize, 1, 0),
                ).push(instr_abc(Opcode::RET, 0, 0, 0))
                &&& final(self).cur().protos@[idx as int].constants == sx.cur().constants
            }),
            r matches Ok((_, _, ft)) ==> (forall|k: int| #[trigger] first_closed_return(body@, k) ==> (old(self).declared_return(
                return_type@,
                ctx.class_name(),
            ) == Some(TypeV::Unknown) ==> *ft@.return_type == closed_type(returned_value(body@[k]))->0)),
            r matches Ok((_, _, ft)) ==> ((forall|k: int| 0 <= k < body@.len() ==> !(#[trigger] body@[k] matches AstNode::ReturnStmt {
                value: Some(_),
            })) ==> (old(self).declared_return(return_type@, ctx.class_name()) == Some(TypeV::Unknown)
                ==> *ft@.return_type == TypeV::Unknown)),
            forall|k: int| #![trigger params@[k]] 0 <= k < params@.len() && (forall|j: int| 0 <= j < k ==> old(self).param_ok(
                #[trigger] params@[j],
            )) && old(self).proto_depth < usize::MAX ==> (params@[k] matches BindingNode::IdentifierBinding { name: pn, ty } ==> (
            old(self).spec_compile_type(ty@) is Unknown && pn@ != "self"@ ==> (r matches Err(CompileError::TypeError(m)) && m@
                == "parameter '"@ + pn@ + "' of '"@ + name@ + "' must have an explicit type"@))),
        decreases body@, 5nat,
    {
        #[verifier::truncate]
        let arity = params.len() as u8;
        match self.enter_proto_checked(name.clone(), arity) {
            Ok(()) => {},
            Err(e) => return Err(e),
        }
        self.enter_scope();
        proof {
            assert forall|k: Seq<char>| #[trigger] self.scopes.spec_lookup_type(k) == old(self).scopes.spec_lookup_type(k) by {
                let s = self.scopes.scopes@;
                assert(!s.last().types@.contains_key(k));
                assert(crate::scope::innermost_type(s, k) == crate::scope::innermost_type(s.drop_last(), k));
                crate::scope::lemma_innermost_type(old(self).scopes.scopes@, k);
                let at = crate::scope::innermost_type(old(self).scopes.scopes@, k);
                if at >= 0 {
                    assert(s[at] == s.drop_last()[at]);
                }
            }
        }
        let mut i: usize = 0;
        while i < params.len()
            invariant
                old(self).ready(),
                self.ready(),
                forall|k: Seq<char>| #[trigger] self.scopes.spec_lookup_type(k) == old(self).scopes.spec_lookup_type(k),
                self.proto_depth == old(self).proto_depth + 1,
                self.proto_stack@.drop_last() == old(self).proto_stack@,
                self.proto_stack@.len() == old(self).proto_stack@.len() + 1,
                self.cur().name@ == name@,
                self.cur().arity == arity,
                self.cur().code@.len() == 0,
                self.cur().constants@.len() == 0,
                self.cur().saved_reg_top == old(self).reg_alloc.current_top,
                self.scopes.scopes@.len() == old(self).scopes.scopes@.len() + 1,
                self.scopes.scopes@.drop_last() == old(self).scopes.scopes@,
                self.native_protos == old(self).native_protos,
                self.native_namespaces == old(self).native_namespaces,
                self.file_namespaces == old(self).file_namespaces,
                self.type_arena == old(self).type_arena,
                i <= params@.len(),
                self.reg_alloc.current_top == i,
                forall|k: int| 0 <= k < i ==> (#[trigger] params@[k] matches BindingNode::IdentifierBinding { name, ty }
                    && (!(old(self).spec_compile_type(ty@) is Unknown) || name@ == "self"@)),
            decreases params.len() - i,
        {
            match &params[i] {
                BindingNode::IdentifierBinding { name: pname, ty } => {
                    proof {
                        Self::lemma_compile_type_frame(*self, *old(self), ty@);
                        reveal_strlit("self");
                    }
                    let compiled_ty = self.compile_type(ty);
                    if matches!(compiled_ty, Type::Unknown) && !name_is(pname, "self") {
                        return Err(
                            CompileError::TypeError(
                                text5("parameter '", pname.as_str(), "' of '", name.as_str(), "' must have an explicit type"),
                            ),
                        );
                    }
                    self.scopes.define_local(pname.clone(), i, compiled_ty, None, false);
                    match self.alloc_reg() {
                        Ok(_) => {},
                        Err(e) => return Err(e),
                    }
                },
                _ => {
                    return Err(CompileError::Unsupported(String::from_str("Unhandled param binding")));
                },
            }
            i = i + 1;
        }
        let rt = self.compile_type(return_type);
        proof {
            Self::lemma_compile_type_frame(*self, *old(self), return_type@);
        }
        let is_self_var = match &rt {
            Type::TypeVar(n) => name_is(n, "Self"),
            _ => false,
        };
        let declared_ret = if is_self_var {
            match &ctx.current_class {
                Some(class) => match self.scopes.lookup_type(class) {
                    Some(t) => t.copy(),
                    None => {
                        return Err(CompileError::Unsupported(String::from_str("Self type not found")));
                    },
                },
                None => Type::Unknown,
            }
        } else {
            rt
        };
        assert(old(self).declared_return(return_type@, ctx.class_name()) == Some(declared_ret@));
        let mut fn_ctx = CompilingCtx {
            is_public: false,
            return_type: declared_ret.copy(),
            current_class: match &ctx.current_class {
                Some(c) => Some(c.clone()),
                None => None,
            },
        };
        let mut inferred_ret = Type::Unknown;
        let ghost s1 = *self;
        let mut i: usize = 0;
        let ghost mut states: Seq<LucyCompiler> = seq![*self];
        let ghost mut ctxs: Seq<CompilingCtx> = Seq::empty();
        proof {
            crate::syntax::lemma_view_asts(body@);
            assert(crate::syntax::view_asts(body@).take(0) =~= Seq::<AstNodeV>::empty());
            assert(fn_ctx.class_name() == ctx.class_name());
        }
        while i < body.len()
            invariant
                old(self).ready(),
                self.ready(),
                self.extends(s1),
                stmts_run(states, ctxs, crate::syntax::view_asts(body@).take(i as int)),
                states[0] == s1,
                states.last() == *self,
                crate::syntax::view_asts(body@).len() == body@.len(),
                forall|m: int| 0 <= m < body@.len() ==> #[trigger] crate::syntax::view_asts(body@)[m] == body@[m]@,
                !fn_ctx.is_public && fn_ctx.class_name() == ctx.class_name(),
                old(self).declared_return(return_type@, ctx.class_name()) == Some(declared_ret@),
                !(declared_ret@ is Unknown) ==> fn_ctx.return_type@ == declared_ret@,
                forall|k: int| 0 <= k < ctxs.len() ==> !(#[trigger] ctxs[k]).is_public && ctxs[k].class_name() == ctx.class_name()
                    && (!(declared_ret@ is Unknown) ==> ctxs[k].return_type@ == declared_ret@),
                s1.proto_depth == old(self).proto_depth + 1,
                s1.proto_stack@.drop_last() == old(self).proto_stack@,
                s1.proto_stack@.len() == old(self).proto_stack@.len() + 1,
                s1.cur().name@ == name@,
                s1.cur().arity == arity,
                s1.cur().code@.len() == 0,
                s1.cur().saved_reg_top == old(self).reg_alloc.current_top,
                s1.scopes.scopes@.len() == old(self).scopes.scopes@.len() + 1,
                s1.scopes.scopes@.drop_last() == old(self).scopes.scopes@,
                s1.native_protos == old(self).native_protos,
                s1.native_namespaces == old(self).native_namespaces,
                s1.file_namespaces == old(self).file_namespaces,
                s1.type_arena == old(self).type_arena,
                i <= body@.len(),
                forall|k: int| 0 <= k < i ==> !unhandled_stmt(#[trigger] body@[k]@),
                body@.len() == 0 ==> *self == s1,
                s1.cur().constants@.len() == 0,
                old(self).params_typed(params@),
                (forall|k: int| 0 <= k < i ==> !(#[trigger] body@[k] matches AstNode::ReturnStmt { value: Some(_) }))
                    ==> inferred_ret@ == TypeV::Unknown,
                forall|k: int| #[trigger] first_closed_return(body@, k) && k < i ==> inferred_ret@ == closed_type(
                    returned_value(body@[k]),
                )->0,
                forall|k: int| #[trigger] first_closed_return(body@, k) && k < i ==> !(inferred_ret@ is Unknown),
                i == 0 ==> *self == s1,
                s1.reg_alloc.current_top == params@.len(),
                i == 1 && body@.len() == 1 ==> (body@[0]@ matches AstNodeV::ReturnStmt { value: Some(e) } && numeric_expr(*e)
                    ==> params@.len() < usize::MAX),
                i == 1 && body@.len() == 1 ==> (body@[0]@ matches AstNodeV::ReturnStmt { value: Some(e) } && numeric_expr(*e)
                    ==> exists|sx: LucyCompiler| #[trigger] sx.compiled_numeric(
                    s1.with_top((params@.len() + 1) as usize),
                    value_returned(body@[0]@),
                    params@.len() as usize,
                ) && self.emitted_at_top(sx, instr_abc(Opcode::RET, params@.len() as usize, 1, 0), params@.len() as usize)),
            decreases body.len() - i,
        {
            if let AstNode::ReturnStmt { value: Some(expr) } = &body[i] {
                proof {
                    lemma_closed_type(*self, (**expr)@, fn_ctx.class_name());
                }
                let t = match self.infer_expr_type(expr, &fn_ctx) {
                    Ok(t) => t,
                    Err(e) => return Err(e),
                };
                let ghost was_unknown = inferred_ret@ is Unknown;
                if !matches!(t, Type::Unknown) && matches!(inferred_ret, Type::Unknown) {
                    inferred_ret = t.copy();
                    if matches!(declared_ret, Type::Unknown) {
                        fn_ctx.return_type = t;
                    }
                }
                proof {
                    assert(returned_value(body@[i as int]) == (**expr)@);
                    if first_closed_return(body@, i as int) {
                        assert(was_unknown);
                        assert(inferred_ret@ == closed_type((**expr)@)->0);
                    }
                }
            }
            let ghost before = *self;
            proof {
                assert(decreases_to!(body@ => body@[i as int]));
            }
            match self.compile_stmt(&body[i], &fn_ctx) {
                Ok(()) => {},
                Err(e) => return Err(e),
            }
            proof {
                let v = crate::syntax::view_asts(body@);
                let prev = states;
                let prevc = ctxs;
                states = states.push(*self);
                ctxs = ctxs.push(fn_ctx);
                assert(v.take(i + 1)[i as int] == body@[i as int]@);
                assert forall|k: int| #![trigger v.take(i + 1)[k]] 0 <= k < i + 1 implies states[k].stmt_outcome(
                    states[k + 1],
                    v.take(i + 1)[k],
                    ctxs[k],
                    Ok(()),
                ) by {
                    if k < i {
                        assert(v.take(i + 1)[k] == v.take(i as int)[k]);
                        assert(prev[k] == states[k] && prev[k + 1] == states[k + 1] && prevc[k] == ctxs[k]);
                    }
                }
                assert(stmts_run(states, ctxs, v.take(i + 1)));
            }
            proof {
                Self::lemma_extends_trans(s1, before, *self);
                if i == 0 && body@.len() == 1 {
                    assert(before == s1);
                    if body@[0]@ matches AstNodeV::ReturnStmt { value: Some(e) } && numeric_expr(*e) {
                        let e = value_returned(body@[0]@);
                        let t = before.reg_alloc.current_top;
                        let sx = choose|sx: LucyCompiler| #[trigger] sx.compiled_numeric(before.with_top((t + 1) as usize), e, t)
                            && self.emitted_at_top(sx, instr_abc(Opcode::RET, t, 1, 0), t);
                        assert(sx.compiled_numeric(s1.with_top((params@.len() + 1) as usize), e, params@.len() as usize));
                    }
                }
            }
            i = i + 1;
        }
        let ghost s2 = *self;
        self.emit_abc(Opcode::RET, 0, 0, 0);
        proof {
            Self::lemma_emitted_extends(*self, s2, instr_abc(Opcode::RET, 0, 0, 0));
            Self::lemma_extends_trans(s1, s2, *self);
        }
        let ghost s2b = *self;
        self.exit_scope();
        proof {
            crate::scope::lemma_kept_push_pop(old(self).scopes, s1.scopes, s2b.scopes, self.scopes);
        }
        let proto = self.exit_proto();
        let ghost s3 = *self;
        proof {
            assert(self.proto_stack@ == old(self).proto_stack@);
            assert(is_prefix(old(self).type_arena.classes@, self.type_arena.classes@));
        }
        let idx = self.proto_stack[self.proto_stack.len() - 1].protos.len();
        let parent = self.current_proto();
        parent.protos.push(proto);
        proof {
            assert(self.proto_stack@.drop_last() =~= s3.proto_stack@.drop_last());
            assert(self.cur().protos@ == s3.cur().protos@.push(proto));
            assert(is_prefix(old(self).cur().protos@, self.cur().protos@));
            assert(is_prefix(old(self).cur().code@, self.cur().code@));
            assert(is_prefix(old(self).cur().constants@, self.cur().constants@));
            assert(is_prefix(old(self).cur().upvalues@, self.cur().upvalues@));
            assert(self.extends(*old(self)));
        }
        let ghost numeric_body = body@.len() == 1 && (body@[0]@ matches AstNodeV::ReturnStmt { value: Some(e) } && numeric_expr(
            *e,
        ));
        let ghost p = s1.with_top((params@.len() + 1) as usize);
        let ghost sx = choose|sx: LucyCompiler| #[trigger] sx.compiled_numeric(p, value_returned(body@[0]@), params@.len() as usize)
            && s2.emitted_at_top(sx, instr_abc(Opcode::RET, params@.len() as usize, 1, 0), params@.len() as usize);
        proof {
            if numeric_body {
                assert(proto.code@ == sx.cur().code@.push(instr_abc(Opcode::RET, params@.len() as usize, 1, 0)).push(
                    instr_abc(Opcode::RET, 0, 0, 0),
                ));
                assert(proto.constants == sx.cur().constants);
            }
            let v = crate::syntax::view_asts(body@);
            assert(v.take(body@.len() as int) =~= v);
            assert(stmts_run(states, ctxs, v));
            assert(proto.code@ == states.last().cur().code@.push(instr_abc(Opcode::RET, 0, 0, 0)));
            assert(proto.constants == states.last().cur().constants);
        }
        proof {
            old(self).scopes.lemma_types_kept_lookup(self.scopes);
        }
        let mut param_types: Vec<Type> = Vec::new();
        let mut j: usize = 0;
        while j < params.len()
            invariant
                j <= params.len(),
                param_types@.len() == j,
                forall|k: Seq<char>| #[trigger] self.scopes.spec_lookup_type(k) == old(self).scopes.spec_lookup_type(k),
                forall|m: int| 0 <= m < j ==> (params@[m] matches BindingNode::IdentifierBinding { ty, .. }
                    ==> #[trigger] param_types@[m]@ == old(self).spec_compile_type(ty@)),
            decreases params.len() - j,
        {
            match &params[j] {
                BindingNode::IdentifierBinding { ty, .. } => {
                    proof {
                        Self::lemma_compile_type_frame(*self, *old(self), ty@);
                    }
                    param_types.push(self.compile_type(ty));
                },
                _ => {
                    param_types.push(Type::Unknown);
                },
            }
            j = j + 1;
        }
        let final_ret = if matches!(declared_ret, Type::Unknown) {
            inferred_ret
        } else {
            declared_ret
        };
        proof {
            crate::ty::lemma_view_types(param_types@);
        }
        let fn_type = FunctionType { params: param_types, return_type: Box::new(final_ret) };
        if is_method {
            proof {
                assert(self.cur().protos@[idx as int] == proto);
                assert(stmts_run(states, ctxs, crate::syntax::view_asts(body@)));
                if numeric_body {
                    assert(self.cur().protos@[idx as int] == proto);
                    assert(sx.compiled_numeric(p, value_returned(body@[0]@), params@.len() as usize));
                }
            }
            return Ok((0, idx, fn_type));
        }
        let ghost s4 = *self;
        let k = self.add_constant(ConstantValue::FunctionProto(idx));
        let dst = match self.alloc_reg() {
            Ok(x) => x,
            Err(e) => return Err(e),
        };
        let ghost s5 = *self;
        self.emit_abx(Opcode::LOADK, dst, k);
        proof {
            assert(s4.cur().code@ == old(self).cur().code@);
            assert(s4.cur().constants@ == old(self).cur().constants@);
            crate::compiler::lemma_first_constant_index(s4.cur().constants@, ConstantValueV::FunctionProto(idx));
            assert(view_constants(s4.cur().constants@.push(ConstantValue::FunctionProto(idx))) =~= view_constants(
                s4.cur().constants@,
            ).push(ConstantValueV::FunctionProto(idx)));
            assert(is_prefix(s4.cur().constants@, s5.cur().constants@));
            Self::lemma_emitted_extends(*self, s5, instr_abx(Opcode::LOADK, dst, k));
            Self::lemma_extends_trans(*old(self), s4, s5);
            Self::lemma_extends_trans(*old(self), s5, *self);
        }
        let fty = Type::Function(Box::new(fn_type.copy()));
        let ghost sd = *self;
        if ctx.is_public {
            self.scopes.define_export(name.clone(), dst, fty, Some(ConstantValue::FunctionProto(idx)), false);
        } else {
            self.scopes.define_local(name.clone(), dst, fty, Some(ConstantValue::FunctionProto(idx)), false);
        }
        proof {
            crate::scope::lemma_kept_after_bind(sd.scopes, self.scopes);
            crate::scope::lemma_kept_trans(old(self).scopes, sd.scopes, self.scopes, old(self).scopes.scopes@.len() - 1);
            let n = old(self).scopes.scopes@.len() - 1;
            assert(sd.scopes.scopes@[n].reg_base == old(self).scopes.scopes@[n].reg_base);
            crate::scope::lemma_bases_trans(old(self).scopes, sd.scopes, self.scopes);
            assert(self.extends(*old(self)));
            assert(self.cur().protos@[idx as int] == proto);
            assert(stmts_run(states, ctxs, crate::syntax::view_asts(body@)));
            if numeric_body {
                assert(self.cur().protos@[idx as int] == proto);
                assert(sx.compiled_numeric(p, value_returned(body@[0]@), params@.len() as usize));
                assert(p.reg_alloc.current_top == params@.len() + 1);
            }
        }
        Ok((dst, idx, fn_type))
    }
}

/// Binds `idx` to `op` in `v`, replacing the index of an earlier binding.
fn set_op_index(v: &mut Vec<(Operator, usize)>, op: Operator, idx: usize, Ghost(bound): Ghost<usize>)
    requires
        idx >= bound,
        forall|j: int| 0 <= j < old(v)@.len() ==> #[trigger] old(v)@[j].1 >= bound,
    ensures
        forall|j: int| 0 <= j < final(v)@.len() ==> #[trigger] final(v)@[j].1 >= bound,
        indexed_operators(final(v)@) == indexed_operators(old(v)@).insert(op),
        (exists|i: int| 0 <= i < old(v)@.len() && (#[trigger] old(v)@[i]).0 == op && (forall|j: int| 0 <= j < i ==> old(v)@[j].0 != op)
            && final(v)@ == old(v)@.update(i, (op, idx))) || ((forall|j: int| 0 <= j < old(v)@.len() ==> old(v)@[j].0 != op)
            && final(v)@ == old(v)@.push((op, idx))),
{
    let mut i: usize = 0;
    while i < v.len()
        invariant
            v == old(v),
            idx >= bound,
            i <= v@.len(),
            forall|j: int| 0 <= j < v@.len() ==> #[trigger] v@[j].1 >= bound,
            forall|j: int| 0 <= j < i ==> v@[j].0 != op,
        decreases v.len() - i,
    {
        if v[i].0 == op {
            let ghost v0 = v@;
            v.set(i, (op, idx));
            assert forall|j: int| 0 <= j < v@.len() implies #[trigger] v@[j].1 >= bound by {
                if j != i {
                    assert(v@[j] == v0[j]);
                }
            }
            assert(v0[i as int].0 == op);
            assert forall|o: Operator| indexed_operators(v@).contains(o) == indexed_operators(v0).insert(op).contains(o) by {
                if indexed_operators(v0).contains(o) {
                    let j = choose|j: int| 0 <= j < v0.len() && (#[trigger] v0[j]).0 == o;
                    assert(v@[j].0 == o);
                }
                if o == op {
                    assert(v@[i as int].0 == o);
                }
                if indexed_operators(v@).contains(o) {
                    let j = choose|j: int| 0 <= j < v@.len() && (#[trigger] v@[j]).0 == o;
                    assert(v0[j].0 == o);
                }
            }
            assert(indexed_operators(v@) =~= indexed_operators(v0).insert(op));
            return;
        }
        i = i + 1;
    }
    let ghost v0 = v@;
    v.push((op, idx));
    assert forall|o: Operator| indexed_operators(v@).contains(o) == indexed_operators(v0).insert(op).contains(o) by {
        if indexed_operators(v0).contains(o) {
            let j = choose|j: int| 0 <= j < v0.len() && (#[trigger] v0[j]).0 == o;
            assert(v@[j].0 == o);
        }
        if o == op {
            assert(v@[v0.len() as int].0 == o);
        }
        if indexed_operators(v@).contains(o) && o != op {
            let j = choose|j: int| 0 <= j < v@.len() && (#[trigger] v@[j]).0 == o;
            assert(j < v0.len());
            assert(v0[j].0 == o);
        }
    }
    assert(indexed_operators(v@) =~= indexed_operators(v0).insert(op));
}

fn find_op_index(v: &Vec<(Operator, usize)>, op: Operator) -> (r: Option<usize>)
    ensures
        r matches Some(x) ==> exists|j: int| 0 <= j < v@.len() && #[trigger] v@[j].1 == x,
        match r {
            Some(x) => exists|i: int| 0 <= i < v@.len() && (#[trigger] v@[i]).0 == op && v@[i].1 == x && (forall|j: int|
                0 <= j < i ==> v@[j].0 != op),
            None => forall|j: int| 0 <= j < v@.len() ==> v@[j].0 != op,
        },
{
    let mut i: usize = 0;
    while i < v.len()
        invariant
            i <= v@.len(),
            forall|j: int| 0 <= j < i ==> v@[j].0 != op,
        decreases v.len() - i,
    {
        if v[i].0 == op {
            return Some(v[i].1);
        }
        i = i + 1;
    }
    None
}

/// A prototype with no code yet, standing in for a method until its body is
/// compiled.
fn placeholder_proto(name: String, arity: u8, saved_reg_top: usize) -> (p: FunctionProto)
    ensures
        p.name == name,
        p.arity == arity,
{
    FunctionProto {
        name,
        arity,
        max_regs: 0,
        code: Vec::new(),
        constants: Vec::new(),
        protos: Vec::new(),
        upvalues: Vec::new(),
        saved_reg_top,
    }
}

impl LucyCompiler {
    /// Compiles the body of a method or operator of class `class_name` into
    /// a prototype of its own and gives it back with the declared return
    /// type. The parameters are `self` first when `self_type` is given, then
    /// those of `params` that are plain names.
    fn compile_member_proto(
        &mut self,
        full_name: String,
        arity: u8,
        self_type: Option<&TypeNode>,
        params: &Vec<BindingNode>,
        return_type: &TypeNode,
        body: &Vec<AstNode>,
        is_public: bool,
        class_name: &String,
    ) -> (r: Result<(FunctionProto, Type), CompileError>)
        requires
            old(self).ready(),
        ensures
            r matches Ok((p, _)) ==> {
                &&& p.name == full_name
                &&& p.arity == arity
                &&& final(self).proto_stack@ == old(self).proto_stack@
                &&& final(self).proto_depth == old(self).proto_depth
                &&& final(self).reg_alloc.current_top == old(self).reg_alloc.current_top
                &&& final(self).native_protos == old(self).native_protos
                &&& final(self).native_namespaces == old(self).native_namespaces
                &&& final(self).file_namespaces == old(self).file_namespaces
                &&& is_prefix(old(self).type_arena.classes@, final(self).type_arena.classes@)
                &&& final(self).scopes.scopes@.len() == old(self).scopes.scopes@.len()
                &&& old(self).scopes.types_kept(final(self).scopes, old(self).scopes.scopes@.len() as int)
                &&& old(self).scopes.namespaces_kept(final(self).scopes, old(self).scopes.scopes@.len() as int)
                &&& old(self).scopes.bases_kept(final(self).scopes)
            },
            old(self).proto_depth < usize::MAX && params@.len() + 1 < usize::MAX && body@.len() == 0 ==> (r matches Ok(
                (p, _),
            ) && p.code@.len() == 0),
            old(self).proto_depth == usize::MAX ==> r is Err,
            r is Ok ==> forall|k: int| 0 <= k < body@.len() ==> !unhandled_stmt(#[trigger] body@[k]@),
            r is Ok && body@.len() == 0 ==> final(self).scopes.scopes@ == old(self).scopes.scopes@,
            r matches Ok((p, _)) ==> body_compiled(
                p,
                crate::syntax::view_asts(body@),
                full_name@,
                class_name@,
                is_public,
                old(self).proto_depth,
            ),
        decreases body@, 5nat,
    {
        match self.enter_proto_checked(full_name, arity) {
            Ok(()) => {},
            Err(e) => return Err(e),
        }
        self.enter_scope();
        let offset: usize = if self_type.is_some() {
            1
        } else {
            0
        };
        if let Some(st) = self_type {
            let compiled_ty = self.compile_type(st);
            self.scopes.define_local(String::from_str("self"), 0, compiled_ty, None, false);
            match self.alloc_reg() {
                Ok(_) => {},
                Err(e) => return Err(e),
            }
        }
        let mut i: usize = 0;
        while i < params.len()
            invariant
                old(self).ready(),
                self.ready(),
                offset <= 1,
                self.proto_depth == old(self).proto_depth + 1,
                self.proto_stack@.drop_last() == old(self).proto_stack@,
                self.proto_stack@.len() == old(self).proto_stack@.len() + 1,
                self.cur().name == full_name,
                self.cur().arity == arity,
                self.cur().saved_reg_top == old(self).reg_alloc.current_top,
                self.scopes.scopes@.len() == old(self).scopes.scopes@.len() + 1,
                self.scopes.scopes@.drop_last() == old(self).scopes.scopes@,
                self.native_protos == old(self).native_protos,
                self.native_namespaces == old(self).native_namespaces,
                self.file_namespaces == old(self).file_namespaces,
                self.type_arena == old(self).type_arena,
                i <= params@.len(),
                self.reg_alloc.current_top <= i + offset,
                self.cur().code@.len() == 0,
                self.cur().constants@.len() == 0,
            decreases params.len() - i,
        {
            if let BindingNode::IdentifierBinding { name: pname, ty } = &params[i] {
                let compiled_ty = self.compile_type(ty);
                if i > usize::MAX - 1 {
                    return Err(CompileError::Unsupported(String::from_str("too many parameters")));
                }
                self.scopes.define_local(pname.clone(), i + offset, compiled_ty, None, false);
                match self.alloc_reg() {
                    Ok(_) => {},
                    Err(e) => return Err(e),
                }
            }
            i = i + 1;
        }
        let ret = self.compile_type(return_type);
        let fn_ctx = CompilingCtx { is_public, return_type: ret.copy(), current_class: Some(class_name.clone()) };
        let ghost s1 = *self;
        match self.compile_stmts(body, &fn_ctx) {
            Ok(()) => {},
            Err(e) => return Err(e),
        }
        let ghost s2 = *self;
        let ghost states = choose|states: Seq<LucyCompiler>| #[trigger] stmts_run(
            states,
            ctx_copies(fn_ctx, body@.len()),
            crate::syntax::view_asts(body@),
        ) && states[0] == s1 && states.last() == s2;
        proof {
            crate::syntax::lemma_view_asts(body@);
            assert(fn_ctx.class_name() == Some(class_name@));
            assert(stmts_run(states, ctx_copies(fn_ctx, crate::syntax::view_asts(body@).len()), crate::syntax::view_asts(body@)));
            assert(s1.cur().name == full_name && s1.cur().code@.len() == 0 && s1.cur().constants@.len() == 0);
        }
        self.exit_scope();
        proof {
            crate::scope::lemma_kept_push_pop(old(self).scopes, s1.scopes, s2.scopes, self.scopes);
        }
        let proto = self.exit_proto();
        proof {
            assert(self.proto_stack@ =~= old(self).proto_stack@);
            assert(proto.code == s2.cur().code && proto.constants == s2.cur().constants);
            assert(body_compiled(
                proto,
                crate::syntax::view_asts(body@),
                full_name@,
                class_name@,
                is_public,
                old(self).proto_depth,
            ));
        }
        Ok((proto, ret))
    }

    /// The types of the parameters of a method or operator: `self` first
    /// when `self_type` is given, then one per parameter (`Unknown` for one
    /// that is not a plain name).
    fn member_param_types(&self, self_type: Option<&TypeNode>, params: &Vec<BindingNode>) -> (v: Vec<Type>)
        ensures
            v@.len() == params@.len() + if self_type is Some {
                1int
            } else {
                0int
            },
            self_type matches Some(st) ==> v@[0]@ == self.spec_compile_type(st@),
            forall|j: int| #![trigger params@[j]] 0 <= j < params@.len() ==> v@[j + if self_type is Some {
                1int
            } else {
                0int
            }]@ == match params@[j] {
                BindingNode::IdentifierBinding { ty, .. } => self.spec_compile_type(ty@),
                _ => TypeV::Unknown,
            },
    {
        let mut v: Vec<Type> = Vec::new();
        let ghost off: int = if self_type is Some {
            1int
        } else {
            0int
        };
        if let Some(st) = self_type {
            v.push(self.compile_type(st));
        }
        let mut i: usize = 0;
        while i < params.len()
            invariant
                i <= params@.len(),
                off == (if self_type is Some {
                    1int
                } else {
                    0int
                }),
                v@.len() == i + off,
                self_type matches Some(st) ==> v@[0]@ == self.spec_compile_type(st@),
                forall|j: int| #![trigger params@[j]] 0 <= j < i ==> v@[j + off]@ == match params@[j] {
                    BindingNode::IdentifierBinding { ty, .. } => self.spec_compile_type(ty@),
                    _ => TypeV::Unknown,
                },
            decreases params.len() - i,
        {
            match &params[i] {
                BindingNode::IdentifierBinding { ty, .. } => {
                    v.push(self.compile_type(ty));
                },
                _ => {
                    v.push(Type::Unknown);
                },
            }
            i = i + 1;
        }
        v
    }

    /// Compiles a class: registers its type, a namespace of its methods and
    /// the constant that describes it, then compiles each method and
    /// operator into a prototype of its own.
    pub fn compile_class_definition(&mut self, class_name: &String, members: &Vec<ClassMember>, ctx: &CompilingCtx) -> (r: Result<(), CompileError>)
        requires
            old(self).ready(),
            old(self).scopes.scopes@.len() > 0,
        ensures
            r is Ok ==> final(self).extends(*old(self)),
            r is Ok ==> final(self).type_arena.classes@.len() > old(self).type_arena.classes@.len()
                && final(self).type_arena.classes@[old(self).type_arena.classes@.len() as int].name == *class_name,
            r is Ok ==> (final(self).scopes.spec_lookup_type(class_name@) matches Some(t) && t@ == TypeV::Class(
                crate::ty::TypeId(old(self).type_arena.classes@.len() as usize),
            )),
            r is Ok ==> final(self).reg_alloc.current_top == old(self).reg_alloc.current_top,
            r is Ok ==> view_field_table(final(self).type_arena.classes@[old(self).type_arena.classes@.len() as int].fields@)
                == old(self).declared_fields(members@),
            r is Ok ==> final(self).type_arena.classes@[old(self).type_arena.classes@.len() as int].field_index_map@
                == field_positions(old(self).declared_fields(members@)),
            r is Ok ==> method_publicity(final(self).type_arena.classes@[old(self).type_arena.classes@.len() as int].methods@)
                == declared_methods(members@),
            r is Ok ==> operator_set(final(self).type_arena.classes@[old(self).type_arena.classes@.len() as int].operators@)
                == declared_operators(members@),
            r is Ok ==> (final(self).type_arena.classes@[old(self).type_arena.classes@.len() as int].class_proto_constant matches Some(
                ConstantValue::ClassProto { name, fields, .. },
            ) && name@ == class_name@ && fields@ == final(self).type_arena.classes@[old(self).type_arena.classes@.len() as int].fields@.map_values(
                |f: (String, Type, bool)| f.2,
            )),
            (forall|k: int| 0 <= k < members@.len() ==> #[trigger] members@[k] is Field) ==> r is Ok,
            distinct_method_names(members@) && bodiless_members(members@) && old(self).proto_depth < usize::MAX ==> r is Ok,
            r is Ok ==> (final(self).type_arena.classes@[old(self).type_arena.classes@.len() as int].class_proto_constant matches Some(
                ConstantValue::ClassProto { operators, .. },
            ) && operators@ == operator_entries(members@, old(self).cur().protos@.len())),
            r is Ok && methods_not_operator_named(members@) ==> forall|k: Seq<char>| #[trigger] declared_method_arities(
                members@,
            ).contains_key(k) ==> final(self).cur().protos@[method_namespace(members@, old(self).cur().protos@.len())[k].0 as int].arity
                == declared_method_arities(members@)[k],
            r is Ok && methods_not_operator_named(members@) ==> forall|k: Seq<char>| #[trigger] declared_methods(
                members@,
            ).contains_key(k) ==> body_compiled(
                final(self).cur().protos@[method_namespace(members@, old(self).cur().protos@.len())[k].0 as int],
                last_method_body(members@, k),
                class_name@ + "::"@ + k,
                class_name@,
                false,
                old(self).proto_depth,
            ),
            r is Ok && bodiless_members(members@) && methods_not_operator_named(members@) ==> forall|k: Seq<char>|
                #[trigger] declared_methods(members@).contains_key(k) ==> (final(self).scopes.spec_resolve(class_name@ + "::"@ + k) matches Some(
                (l, _),
            ) && l.reg == 0 && crate::scope::view_backing(l.backing) == Some(
                ConstantValueV::FunctionProto(method_namespace(members@, old(self).cur().protos@.len())[k].0),
            ) && l.ty@ is Function && !l.mutable && !l.moved),
            r is Ok ==> (final(self).scopes.spec_namespace(class_name@) matches Some(n) && n.locals@ == method_namespace(
                members@,
                old(self).cur().protos@.len(),
            ) && n.children@.len() == 0),
            r is Ok && distinct_method_names(members@) ==> (final(self).type_arena.classes@[old(
                self,
            ).type_arena.classes@.len() as int].class_proto_constant matches Some(ConstantValue::ClassProto { methods, .. })
                && methods@ == method_entries(members@, old(self).cur().protos@.len())),
            r is Ok ==> final(self).cur().protos@.len() == old(self).cur().protos@.len() + callable_members(members@).len(),
            r is Ok ==> forall|p: int| #![trigger final(self).cur().protos@[p]]
                old(self).cur().protos@.len() <= p < final(self).cur().protos@.len() ==> final(self).cur().protos@[p].name@
                == member_proto_name(class_name@, callable_members(members@)[p - old(self).cur().protos@.len()]),
        decreases members@, 5nat,
    {
        let mut field_types: Vec<(String, Type, bool)> = Vec::new();
        let mut field_index_map: NameMap<usize> = NameMap::new();
        let mut i: usize = 0;
        while i < members.len()
            invariant
                *self == *old(self),
                i <= members.len(),
                view_field_table(field_types@) == old(self).declared_fields(members@.take(i as int)),
                field_index_map@ == field_positions(view_field_table(field_types@)),
            decreases members.len() - i,
        {
            proof {
                assert(members@.take(i + 1).drop_last() =~= members@.take(i as int));
                assert(members@.take(i + 1).last() == members@[i as int]);
            }
            if let ClassMember::Field { name, ty, is_public } = &members[i] {
                let t = self.compile_type(ty);
                field_index_map.insert(name.clone(), field_types.len());
                let ghost before = field_types@;
                field_types.push((name.clone(), t, *is_public));
                proof {
                    assert(view_field_table(field_types@) =~= view_field_table(before).push((name@, t@, *is_public)));
                    assert(view_field_table(field_types@).drop_last() =~= view_field_table(before));
                }
            }
            i = i + 1;
        }
        proof {
            assert(members@.take(members@.len() as int) =~= members@);
        }
        let ghost ft = field_types@;
        let ghost fim = field_index_map@;
        let class_id = self.type_arena.alloc_class(
            ClassType {
                name: class_name.clone(),
                fields: field_types,
                field_index_map,
                methods: NameMap::new(),
                operators: Vec::new(),
                class_proto_constant: None,
            },
        );
        let ghost sd = *self;
        self.scopes.define_type(class_name.clone(), Type::Class(class_id));
        let ghost sdef = *self;
        proof {
            crate::scope::lemma_kept_after_bind(sd.scopes, self.scopes);
            assert(is_prefix(old(self).type_arena.classes@, self.type_arena.classes@));
            assert(self.extends(*old(self)));
        }
        let mut ns = Namespace::new();
        let mut method_proto_indices: NameMap<usize> = NameMap::new();
        let mut op_proto_indices: Vec<(Operator, usize)> = Vec::new();
        let mut i: usize = 0;
        proof {
            assert(members@.take(0) =~= Seq::<ClassMember>::empty());
            assert(method_publicity(self.type_arena.classes@[class_id.0 as int].methods@) =~= Map::<Seq<char>, bool>::empty());
            assert(operator_set(self.type_arena.classes@[class_id.0 as int].operators@) =~= Set::<Operator>::empty());
        }
        while i < members.len()
            invariant
                old(self).ready(),
                self.ready(),
                self.extends(*old(self)),
                self.scopes.scopes@.len() > 0,
                class_id.0 == old(self).type_arena.classes@.len(),
                class_id.0 < self.type_arena.classes@.len(),
                self.type_arena.classes@[class_id.0 as int].name == *class_name,
                self.type_arena.classes@[class_id.0 as int].fields@ == ft,
                self.type_arena.classes@[class_id.0 as int].field_index_map@ == fim,
                i <= members@.len(),
                method_publicity(self.type_arena.classes@[class_id.0 as int].methods@) == declared_methods(members@.take(i as int)),
                operator_set(self.type_arena.classes@[class_id.0 as int].operators@) == declared_operators(members@.take(i as int)),
                (forall|k: int| 0 <= k < i ==> #[trigger] members@[k] is Field) ==> self.type_arena.classes@[class_id.0 as int].methods.bindings().len() == 0,
                forall|k: Seq<char>| #[trigger] method_proto_indices@.contains_key(k) ==> method_proto_indices@[k]
                    >= old(self).cur().protos@.len(),
                forall|j: int| 0 <= j < op_proto_indices@.len() ==> #[trigger] op_proto_indices@[j].1
                    >= old(self).cur().protos@.len(),
                self.scopes == sdef.scopes,
                forall|k: Seq<char>| #[trigger] declared_methods(members@.take(i as int)).contains_key(k)
                    ==> method_proto_indices@.contains_key(k),
                operator_pairs(self.type_arena.classes@[class_id.0 as int].operators@) == operator_entries(
                    members@.take(i as int),
                    old(self).cur().protos@.len(),
                ),
                ns.locals@ == method_namespace(members@.take(i as int), old(self).cur().protos@.len()),
                ns.children@.len() == 0,
                forall|k: Seq<char>| #[trigger] ns.locals@.contains_key(k) ==> method_proto_indices@.contains_key(k)
                    && method_proto_indices@[k] == ns.locals@[k].0,
                indexed_operators(op_proto_indices@) == declared_operators(members@.take(i as int)),
                distinct_method_names(members@) ==> self.type_arena.classes@[class_id.0 as int].methods.bindings().len()
                    == method_entries(members@.take(i as int), old(self).cur().protos@.len()).len(),
                distinct_method_names(members@) ==> forall|j: int| 0 <= j < self.type_arena.classes@[class_id.0 as int].methods.bindings().len()
                    ==> (#[trigger] self.type_arena.classes@[class_id.0 as int].methods.bindings()[j]).1.0 == j
                    && (self.type_arena.classes@[class_id.0 as int].methods.bindings()[j].1.1, self.type_arena.classes@[class_id.0 as int].methods.bindings()[j].1.3)
                    == method_entries(members@.take(i as int), old(self).cur().protos@.len())[j],
                self.cur().protos@.len() == old(self).cur().protos@.len() + callable_members(members@.take(i as int)).len(),
                forall|p: int| old(self).cur().protos@.len() <= p < self.cur().protos@.len() ==> (#[trigger] self.cur().protos@[p]).name@
                    == member_proto_name(class_name@, callable_members(members@.take(i as int))[p - old(self).cur().protos@.len()]),
                forall|k: Seq<char>| #[trigger] method_proto_indices@.contains_key(k) ==> method_proto_indices@[k]
                    < self.cur().protos@.len() && self.cur().protos@[method_proto_indices@[k] as int].name@ == class_name@ + "::"@ + k,
                forall|j: int| 0 <= j < op_proto_indices@.len() ==> #[trigger] op_proto_indices@[j].1 < self.cur().protos@.len()
                    && self.cur().protos@[op_proto_indices@[j].1 as int].name@ == class_name@ + "::operator@"@ + operator_name(
                    op_proto_indices@[j].0,
                ),
                self.reg_alloc.current_top == old(self).reg_alloc.current_top,
            decreases members.len() - i,
        {
            proof {
                assert(members@.take(i + 1).drop_last() =~= members@.take(i as int));
                assert(members@.take(i + 1).last() == members@[i as int]);
            }
            match &members[i] {
                ClassMember::Method { name: method_name, params, has_self, is_public, .. } => {
                    #[verifier::truncate]
                    let base = params.len() as u8;
                    let arity = if *has_self {
                        if base == 255 {
                            return Err(CompileError::Unsupported(String::from_str("too many parameters")));
                        }
                        base + 1
                    } else {
                        base
                    };
                    let placeholder = placeholder_proto(
                        text3(class_name.as_str(), "::", method_name.as_str()),
                        arity,
                        self.reg_alloc.current_top,
                    );
                    let local_idx = self.proto_stack[self.proto_stack.len() - 1].protos.len();
                    let ghost s0 = *self;
                    self.current_proto().protos.push(placeholder);
                    proof {
                        assert(self.proto_stack@.drop_last() =~= s0.proto_stack@.drop_last());
                        assert(is_prefix(s0.cur().protos@, self.cur().protos@));
                        assert(is_prefix(s0.cur().code@, self.cur().code@));
                        assert(is_prefix(s0.cur().constants@, self.cur().constants@));
                        assert(is_prefix(s0.cur().upvalues@, self.cur().upvalues@));
                        assert(self.extends(s0));
                        Self::lemma_extends_trans(*old(self), s0, *self);
                    }
                    method_proto_indices.insert(method_name.clone(), local_idx);
                    let ghost s1 = *self;
                    proof {
                        if distinct_method_names(members@) {
                            lemma_distinct_prefix(members@, i + 1);
                            let ms = s1.type_arena.classes@[class_id.0 as int].methods@;
                            assert(method_publicity(ms).dom() == ms.dom());
                            assert(!declared_methods(members@.take(i as int)).contains_key(method_name@));
                            assert(!ms.contains_key(method_name@));
                        }
                    }
                    let class = self.type_arena.get_class_mut(class_id);
                    let method_idx = class.methods.len();
                    class.methods.insert(
                        method_name.clone(),
                        (
                            method_idx,
                            local_idx,
                            FunctionType { params: Vec::new(), return_type: Box::new(Type::Unknown) },
                            *is_public,
                        ),
                    );
                    proof {
                        assert(method_publicity(class.methods@) =~= method_publicity(
                            s1.type_arena.classes@[class_id.0 as int].methods@,
                        ).insert(method_name@, *is_public));
                    }
                    proof {
                        assert(is_prefix(old(self).type_arena.classes@, self.type_arena.classes@));
                    }
                    ns.locals.insert(method_name.clone(), (local_idx, *is_public));
                },
                ClassMember::OperatorOverload { op, .. } => {
                    let placeholder = placeholder_proto(
                        text3(class_name.as_str(), "::operator@", operator_text(*op)),
                        2,
                        self.reg_alloc.current_top,
                    );
                    let local_idx = self.proto_stack[self.proto_stack.len() - 1].protos.len();
                    let ghost s0 = *self;
                    self.current_proto().protos.push(placeholder);
                    proof {
                        assert(self.proto_stack@.drop_last() =~= s0.proto_stack@.drop_last());
                        assert(is_prefix(s0.cur().protos@, self.cur().protos@));
                        assert(is_prefix(s0.cur().code@, self.cur().code@));
                        assert(is_prefix(s0.cur().constants@, self.cur().constants@));
                        assert(is_prefix(s0.cur().upvalues@, self.cur().upvalues@));
                        assert(self.extends(s0));
                        Self::lemma_extends_trans(*old(self), s0, *self);
                    }
                    set_op_index(&mut op_proto_indices, *op, local_idx, Ghost(old(self).cur().protos@.len() as usize));
                    let class = self.type_arena.get_class_mut(class_id);
                    let entry = (*op, local_idx, FunctionType { params: Vec::new(), return_type: Box::new(Type::Unknown) });
                    proof {
                        crate::ty::lemma_first_operator_index(class.operators@, *op);
                    }
                    let ghost before = class.operators@;
                    proof {
                        lemma_first_pair_index(before, *op);
                    }
                    match class.find_operator(*op) {
                        Some(pos) => {
                            class.operators.set(pos, entry);
                            proof {
                                assert(operator_pairs(class.operators@) =~= operator_pairs(before).update(pos as int, (*op, local_idx)));
                            }
                            proof {
                                lemma_operator_set_update(before, pos as int, entry);
                                assert(operator_set(before).contains(*op));
                                assert(operator_set(before).insert(*op) =~= operator_set(before));
                            }
                        },
                        None => {
                            class.operators.push(entry);
                            proof {
                                lemma_operator_set_push(before, entry);
                                assert(operator_pairs(class.operators@) =~= operator_pairs(before).push((*op, local_idx)));
                            }
                        },
                    }
                    proof {
                        assert(is_prefix(old(self).type_arena.classes@, self.type_arena.classes@));
                    }
                },
                ClassMember::Field { .. } => {},
            }
            i = i + 1;
        }
        proof {
            assert(members@.take(members@.len() as int) =~= members@);
        }
        let proto_constant = {
            let class = self.type_arena.get_class(class_id);
            let mut field_vis: Vec<bool> = Vec::new();
            let mut k: usize = 0;
            while k < class.fields.len()
                invariant
                    k <= class.fields@.len(),
                    field_vis@.len() == k,
                    forall|j: int| 0 <= j < k ==> #[trigger] field_vis@[j] == class.fields@[j].2,
                decreases class.fields.len() - k,
            {
                field_vis.push(class.fields[k].2);
                k = k + 1;
            }
            proof {
                assert(field_vis@ =~= class.fields@.map_values(|f: (String, Type, bool)| f.2));
            }
            let n = class.methods.len();
            let mut ordered: Vec<(usize, bool)> = Vec::new();
            let mut k: usize = 0;
            while k < n
                invariant
                    ordered@.len() == k,
                    k <= n,
                decreases n - k,
            {
                ordered.push((404, false));
                k = k + 1;
            }
            let ghost entries = method_entries(members@, old(self).cur().protos@.len());
            let mut k: usize = 0;
            while k < n
                invariant
                    ordered@.len() == n,
                    k <= n,
                    n == class.methods.bindings().len(),
                    (forall|m: int| 0 <= m < members@.len() ==> #[trigger] members@[m] is Field) ==> n == 0,
                    distinct_method_names(members@) ==> n == entries.len(),
                    distinct_method_names(members@) ==> forall|j: int| 0 <= j < n ==> (#[trigger] class.methods.bindings()[j]).1.0 == j
                        && (class.methods.bindings()[j].1.1, class.methods.bindings()[j].1.3) == entries[j],
                    distinct_method_names(members@) ==> forall|j: int| 0 <= j < k ==> #[trigger] ordered@[j] == entries[j],
                decreases n - k,
            {
                let m = class.methods.value_at(k);
                if m.0 >= n {
                    return Err(CompileError::Unsupported(String::from_str("method defined twice")));
                }
                ordered.set(m.0, (m.1, m.3));
                proof {
                    if distinct_method_names(members@) {
                        assert(class.methods.bindings()[k as int].1.0 == k);
                    }
                }
                k = k + 1;
            }
            proof {
                if distinct_method_names(members@) {
                    assert(ordered@ =~= entries);
                }
            }
            let mut operators: Vec<(Operator, usize)> = Vec::new();
            let mut k: usize = 0;
            while k < class.operators.len()
                invariant
                    k <= class.operators@.len(),
                    operators@ == operator_pairs(class.operators@).take(k as int),
                decreases class.operators.len() - k,
            {
                operators.push((class.operators[k].0, class.operators[k].1));
                k = k + 1;
                proof {
                    assert(operators@ =~= operator_pairs(class.operators@).take(k as int));
                }
            }
            proof {
                assert(operators@ =~= operator_pairs(class.operators@));
            }
            ConstantValue::ClassProto { name: class_name.clone(), fields: field_vis, methods: ordered, operators }
        };
        self.type_arena.get_class_mut(class_id).class_proto_constant = Some(proto_constant);
        let ghost pc = self.type_arena.classes@[class_id.0 as int].class_proto_constant;
        let ghost sn = *self;
        let ghost nsv = ns;
        self.scopes.define_namespace(class_name.clone(), ns);
        proof {
            crate::scope::lemma_kept_after_bind(sn.scopes, self.scopes);
            assert(sdef.scopes.types_kept(self.scopes, sdef.scopes.scopes@.len() as int));
            crate::scope::lemma_kept_trans(old(self).scopes, sn.scopes, self.scopes, old(self).scopes.scopes@.len() - 1);
            assert(is_prefix(old(self).type_arena.classes@, self.type_arena.classes@));
        }
        let self_node = TypeNode::NominalType { name: class_name.clone(), generics: Vec::new() };
        let mut i: usize = 0;
        while i < members.len()
            invariant
                old(self).ready(),
                self.ready(),
                self.extends(*old(self)),
                self.scopes.scopes@.len() > 0,
                class_id.0 == old(self).type_arena.classes@.len(),
                class_id.0 < self.type_arena.classes@.len(),
                self.type_arena.classes@[class_id.0 as int].name == *class_name,
                self.type_arena.classes@[class_id.0 as int].fields@ == ft,
                self.type_arena.classes@[class_id.0 as int].field_index_map@ == fim,
                method_publicity(self.type_arena.classes@[class_id.0 as int].methods@) == declared_methods(members@),
                operator_set(self.type_arena.classes@[class_id.0 as int].operators@) == declared_operators(members@),
                self.type_arena.classes@[class_id.0 as int].class_proto_constant == pc,
                forall|k: Seq<char>| #[trigger] method_proto_indices@.contains_key(k) ==> method_proto_indices@[k]
                    >= old(self).cur().protos@.len(),
                forall|j: int| 0 <= j < op_proto_indices@.len() ==> #[trigger] op_proto_indices@[j].1
                    >= old(self).cur().protos@.len(),
                sdef.scopes.types_kept(self.scopes, sdef.scopes.scopes@.len() as int),
                self.cur().protos@.len() == old(self).cur().protos@.len() + callable_members(members@).len(),
                forall|p: int| old(self).cur().protos@.len() <= p < self.cur().protos@.len() ==> (#[trigger] self.cur().protos@[p]).name@
                    == member_proto_name(class_name@, callable_members(members@)[p - old(self).cur().protos@.len()]),
                forall|k: Seq<char>| #[trigger] method_proto_indices@.contains_key(k) ==> method_proto_indices@[k]
                    < self.cur().protos@.len() && self.cur().protos@[method_proto_indices@[k] as int].name@ == class_name@ + "::"@ + k,
                forall|j: int| 0 <= j < op_proto_indices@.len() ==> #[trigger] op_proto_indices@[j].1 < self.cur().protos@.len()
                    && self.cur().protos@[op_proto_indices@[j].1 as int].name@ == class_name@ + "::operator@"@ + operator_name(
                    op_proto_indices@[j].0,
                ),
                self.scopes.scopes@.len() == sdef.scopes.scopes@.len(),
                sdef.scopes.spec_lookup_type(class_name@) == Some(Type::Class(class_id)),
                self.reg_alloc.current_top == old(self).reg_alloc.current_top,
                forall|k: Seq<char>| #[trigger] declared_methods(members@).contains_key(k) ==> method_proto_indices@.contains_key(k),
                self.scopes.spec_namespace(class_name@) == Some(nsv),
                nsv.locals@ == method_namespace(members@, old(self).cur().protos@.len()),
                nsv.children@.len() == 0,
                indexed_operators(op_proto_indices@) == declared_operators(members@),
                i <= members@.len(),
                forall|k: Seq<char>| #[trigger] nsv.locals@.contains_key(k) ==> method_proto_indices@.contains_key(k)
                    && method_proto_indices@[k] == nsv.locals@[k].0,
                methods_not_operator_named(members@) ==> forall|k: Seq<char>| #[trigger] declared_method_arities(
                    members@.take(i as int),
                ).contains_key(k) ==> self.cur().protos@[method_proto_indices@[k] as int].arity == declared_method_arities(
                    members@.take(i as int),
                )[k],
                methods_not_operator_named(members@) ==> forall|k: Seq<char>| #[trigger] declared_methods(
                    members@.take(i as int),
                ).contains_key(k) ==> body_compiled(
                    self.cur().protos@[method_proto_indices@[k] as int],
                    last_method_body(members@.take(i as int), k),
                    class_name@ + "::"@ + k,
                    class_name@,
                    false,
                    old(self).proto_depth,
                ),
                bodiless_members(members@) && methods_not_operator_named(members@) ==> forall|k: Seq<char>|
                    #[trigger] declared_methods(members@.take(i as int)).contains_key(k) ==> (self.scopes.spec_resolve(
                    class_name@ + "::"@ + k,
                ) matches Some((l, _)) && l.reg == 0 && crate::scope::view_backing(l.backing) == Some(
                    ConstantValueV::FunctionProto(method_proto_indices@[k]),
                ) && l.ty@ is Function && !l.mutable && !l.moved),
            decreases members.len() - i,
        {
            proof {
                assert(decreases_to!(members@ => members@[i as int]));
                lemma_member_declared(members@, i as int);
                lemma_method_maps(members@, old(self).cur().protos@.len(), i as int);
                lemma_method_maps(members@, old(self).cur().protos@.len(), i + 1);
                lemma_method_maps(members@.take(i as int), old(self).cur().protos@.len(), i as int);
                lemma_method_maps(members@.take(i + 1), old(self).cur().protos@.len(), i + 1);
                assert(members@.take(i + 1).drop_last() =~= members@.take(i as int));
                assert(members@.take(i + 1).last() == members@[i as int]);
            }
            let ghost st = *self;
            let ghost cls = class_name@ + "::"@;
            match &members[i] {
                ClassMember::Method { name: method_name, has_self, params, return_type, body, .. } => {
                    let full_name = text3(class_name.as_str(), "::", method_name.as_str());
                    let local_idx = match method_proto_indices.get(method_name) {
                        Some(x) => *x,
                        None => {
                            return Err(CompileError::Unsupported(String::from_str("method without a prototype")));
                        },
                    };
                    if params.len() == usize::MAX {
                        return Err(CompileError::Unsupported(String::from_str("too many parameters")));
                    }
                    let n_all = if *has_self {
                        params.len() + 1
                    } else {
                        params.len()
                    };
                    #[verifier::truncate]
                    let arity = n_all as u8;
                    let self_type = if *has_self {
                        Some(&self_node)
                    } else {
                        None
                    };
                    let ghost s0 = *self;
                    proof {
                        assert(decreases_to!(members@[i as int] => body@));
                    }
                    let (real_proto, ret) = match self.compile_member_proto(
                        full_name.clone(),
                        arity,
                        self_type,
                        params,
                        return_type,
                        body,
                        false,
                        class_name,
                    ) {
                        Ok(x) => x,
                        Err(e) => return Err(e),
                    };
                    proof {
                        s0.scopes.lemma_namespaces_kept_lookup(self.scopes);
                    }
                    let last = self.proto_stack.len() - 1;
                    if local_idx >= self.proto_stack[last].protos.len() {
                        return Err(CompileError::Unsupported(String::from_str("method without a prototype")));
                    }
                    let ghost s1 = *self;
                    self.current_proto().protos.set(local_idx, real_proto);
                    proof {
                        assert(self.proto_stack@.drop_last() =~= s1.proto_stack@.drop_last());
                        assert(is_prefix(old(self).cur().protos@, self.cur().protos@));
                        assert(self.extends(*old(self)));
                    }
                    let param_types = self.member_param_types(self_type, params);
                    let fn_ty = FunctionType { params: param_types, return_type: Box::new(ret) };
                    let ghost sd = *self;
                    self.scopes.define_local(
                        full_name,
                        0,
                        Type::Function(Box::new(fn_ty.copy())),
                        Some(ConstantValue::FunctionProto(local_idx)),
                        false,
                    );
                    proof {
                        crate::scope::lemma_kept_after_bind(sd.scopes, self.scopes);
                        crate::scope::lemma_bases_trans(old(self).scopes, sd.scopes, self.scopes);
                        crate::scope::lemma_kept_trans(old(self).scopes, sd.scopes, self.scopes, old(self).scopes.scopes@.len() - 1);
                        crate::scope::lemma_kept_trans(sdef.scopes, sd.scopes, self.scopes, sdef.scopes.scopes@.len() as int);
                        let n = method_name@;
                        assert(full_name@ == cls + n);
                        if methods_not_operator_named(members@) {
                            assert forall|k: Seq<char>| #[trigger] declared_method_arities(members@.take(i + 1)).contains_key(k)
                                implies self.cur().protos@[method_proto_indices@[k] as int].arity == declared_method_arities(
                                members@.take(i + 1),
                            )[k] by {
                                if k != n {
                                    assert(declared_method_arities(members@.take(i as int)).contains_key(k));
                                    assert(declared_methods(members@).contains_key(k));
                                    lemma_concat_differs(cls, k, n);
                                    assert(st.cur().protos@[method_proto_indices@[k] as int].name@ == cls + k);
                                    assert(method_proto_indices@[k] != local_idx);
                                } else {
                                    assert(method_proto_indices@[k] == local_idx);
                                    assert(self.cur().protos@[local_idx as int] == real_proto);
                                    assert(real_proto.arity == arity);
                                    assert(declared_method_arities(members@.take(i + 1))[k] == arity);
                                }
                            }
                            assert forall|k: Seq<char>| #[trigger] declared_methods(members@.take(i + 1)).contains_key(k) implies body_compiled(
                                self.cur().protos@[method_proto_indices@[k] as int],
                                last_method_body(members@.take(i + 1), k),
                                cls + k,
                                class_name@,
                                false,
                                old(self).proto_depth,
                            ) by {
                                if k != n {
                                    assert(declared_methods(members@.take(i as int)).contains_key(k));
                                    assert(declared_methods(members@).contains_key(k));
                                    lemma_concat_differs(cls, k, n);
                                    assert(st.cur().protos@[method_proto_indices@[k] as int].name@ == cls + k);
                                    assert(method_proto_indices@[k] != local_idx);
                                    assert(last_method_body(members@.take(i + 1), k) == last_method_body(members@.take(i as int), k));
                                } else {
                                    assert(method_proto_indices@[k] == local_idx);
                                    assert(self.cur().protos@[local_idx as int] == real_proto);
                                    assert(last_method_body(members@.take(i + 1), k) == crate::syntax::view_asts(body@));
                                }
                            }
                        }
                        if bodiless_members(members@) && methods_not_operator_named(members@) {
                            assert(body@.len() == 0);
                            assert(sd.scopes.scopes@ == st.scopes.scopes@);
                            assert forall|k: Seq<char>| #[trigger] declared_methods(members@.take(i + 1)).contains_key(k) implies (
                            self.scopes.spec_resolve(cls + k) matches Some((l, _)) && l.reg == 0 && crate::scope::view_backing(
                                l.backing,
                            ) == Some(ConstantValueV::FunctionProto(method_proto_indices@[k])) && l.ty@ is Function && !l.mutable
                                && !l.moved) by {
                                if k != n {
                                    assert(declared_methods(members@.take(i as int)).contains_key(k));
                                    lemma_concat_differs(cls, k, n);
                                    assert(self.scopes.spec_resolve(cls + k) == sd.scopes.spec_resolve(cls + k));
                                    assert(sd.scopes.spec_resolve(cls + k) == st.scopes.spec_resolve(cls + k));
                                }
                            }
                        }
                    }
                    let class = self.type_arena.get_class_mut(class_id);
                    proof {
                        assert(method_publicity(class.methods@).contains_key(method_name@));
                        assert(class.methods@.contains_key(method_name@));
                    }
                    match class.methods.position(method_name) {
                        Some(pos) => {
                            let e = class.methods.value_at(pos);
                            let (a, b, d) = (e.0, e.1, e.3);
                            let ghost before = class.methods@;
                            proof {
                                crate::name_map::lemma_last_index_of_bounds(class.methods.bindings(), method_name@);
                                assert(before.contains_key(method_name@) && before[method_name@].3 == d);
                            }
                            class.methods.replace_value_at(pos, (a, b, fn_ty, d));
                            proof {
                                assert(method_publicity(class.methods@) =~= method_publicity(before));
                            }
                        },
                        None => {
                            return Err(CompileError::Unsupported(String::from_str("method without an entry")));
                        },
                    }
                },
                ClassMember::OperatorOverload { op, params, return_type, body } => {
                    let full_name = text3(class_name.as_str(), "::operator@", operator_text(*op));
                    let local_idx = match find_op_index(&op_proto_indices, *op) {
                        Some(x) => x,
                        None => {
                            return Err(CompileError::Unsupported(String::from_str("operator without a prototype")));
                        },
                    };
                    #[verifier::truncate]
                    let arity = params.len() as u8;
                    let ghost s0 = *self;
                    proof {
                        assert(decreases_to!(members@[i as int] => body@));
                    }
                    let (real_proto, ret) = match self.compile_member_proto(
                        full_name.clone(),
                        arity,
                        None,
                        params,
                        return_type,
                        body,
                        ctx.is_public,
                        class_name,
                    ) {
                        Ok(x) => x,
                        Err(e) => return Err(e),
                    };
                    proof {
                        s0.scopes.lemma_namespaces_kept_lookup(self.scopes);
                    }
                    let last = self.proto_stack.len() - 1;
                    if local_idx >= self.proto_stack[last].protos.len() {
                        return Err(CompileError::Unsupported(String::from_str("operator without a prototype")));
                    }
                    let ghost s1 = *self;
                    self.current_proto().protos.set(local_idx, real_proto);
                    proof {
                        assert(self.proto_stack@.drop_last() =~= s1.proto_stack@.drop_last());
                        assert(is_prefix(old(self).cur().protos@, self.cur().protos@));
                        assert(self.extends(*old(self)));
                    }
                    let param_types = self.member_param_types(None, params);
                    let fn_ty = FunctionType { params: param_types, return_type: Box::new(ret) };
                    let ghost sd = *self;
                    self.scopes.define_local(
                        full_name,
                        0,
                        Type::Function(Box::new(fn_ty.copy())),
                        Some(ConstantValue::FunctionProto(local_idx)),
                        false,
                    );
                    proof {
                        crate::scope::lemma_kept_after_bind(sd.scopes, self.scopes);
                        crate::scope::lemma_bases_trans(old(self).scopes, sd.scopes, self.scopes);
                        crate::scope::lemma_kept_trans(old(self).scopes, sd.scopes, self.scopes, old(self).scopes.scopes@.len() - 1);
                        crate::scope::lemma_kept_trans(sdef.scopes, sd.scopes, self.scopes, sdef.scopes.scopes@.len() as int);
                        reveal_strlit("::operator@");
                        reveal_strlit("::");
                        reveal_strlit("operator@");
                        let opn = "operator@"@ + operator_name(*op);
                        assert(full_name@ =~= cls + opn);
                        let j = choose|j: int| 0 <= j < op_proto_indices@.len() && (#[trigger] op_proto_indices@[j]).0 == *op
                            && op_proto_indices@[j].1 == local_idx;
                        assert(st.cur().protos@[local_idx as int].name@ =~= cls + ("operator@"@ + operator_name(op_proto_indices@[j].0)));
                        if methods_not_operator_named(members@) {
                            assert forall|k: Seq<char>| #[trigger] declared_method_arities(members@.take(i + 1)).contains_key(k)
                                implies self.cur().protos@[method_proto_indices@[k] as int].arity == declared_method_arities(
                                members@.take(i + 1),
                            )[k] by {
                                assert(declared_method_arities(members@.take(i as int)).contains_key(k));
                                assert(declared_methods(members@).contains_key(k));
                                assert(k != "operator@"@ + operator_name(op_proto_indices@[j].0));
                                lemma_concat_differs(cls, k, "operator@"@ + operator_name(op_proto_indices@[j].0));
                                assert(st.cur().protos@[method_proto_indices@[k] as int].name@ == cls + k);
                                assert(method_proto_indices@[k] != local_idx);
                            }
                            assert forall|k: Seq<char>| #[trigger] declared_methods(members@.take(i + 1)).contains_key(k) implies body_compiled(
                                self.cur().protos@[method_proto_indices@[k] as int],
                                last_method_body(members@.take(i + 1), k),
                                cls + k,
                                class_name@,
                                false,
                                old(self).proto_depth,
                            ) by {
                                assert(declared_methods(members@.take(i as int)).contains_key(k));
                                assert(declared_methods(members@).contains_key(k));
                                assert(k != "operator@"@ + operator_name(op_proto_indices@[j].0));
                                lemma_concat_differs(cls, k, "operator@"@ + operator_name(op_proto_indices@[j].0));
                                assert(st.cur().protos@[method_proto_indices@[k] as int].name@ == cls + k);
                                assert(method_proto_indices@[k] != local_idx);
                                assert(last_method_body(members@.take(i + 1), k) == last_method_body(members@.take(i as int), k));
                            }
                        }
                        if bodiless_members(members@) && methods_not_operator_named(members@) {
                            assert(body@.len() == 0);
                            assert(sd.scopes.scopes@ == st.scopes.scopes@);
                            assert forall|k: Seq<char>| #[trigger] declared_methods(members@.take(i + 1)).contains_key(k) implies (
                            self.scopes.spec_resolve(cls + k) matches Some((l, _)) && l.reg == 0 && crate::scope::view_backing(
                                l.backing,
                            ) == Some(ConstantValueV::FunctionProto(method_proto_indices@[k])) && l.ty@ is Function && !l.mutable
                                && !l.moved) by {
                                assert(declared_methods(members@.take(i as int)).contains_key(k));
                                assert(declared_methods(members@).contains_key(k));
                                assert(k != opn);
                                lemma_concat_differs(cls, k, opn);
                                assert(self.scopes.spec_resolve(cls + k) == sd.scopes.spec_resolve(cls + k));
                                assert(sd.scopes.spec_resolve(cls + k) == st.scopes.spec_resolve(cls + k));
                            }
                        }
                    }
                    let class = self.type_arena.get_class_mut(class_id);
                    proof {
                        crate::ty::lemma_first_operator_index(class.operators@, *op);
                    }
                    let ghost before = class.operators@;
                    match class.find_operator(*op) {
                        Some(pos) => {
                            let ghost e = (*op, local_idx, fn_ty);
                            class.operators.set(pos, (*op, local_idx, fn_ty));
                            proof {
                                lemma_operator_set_update(before, pos as int, e);
                            }
                        },
                        None => {
                            return Err(CompileError::Unsupported(String::from_str("operator without an entry")));
                        },
                    }
                },
                ClassMember::Field { .. } => {
                    proof {
                        assert(declared_method_arities(members@.take(i + 1)) == declared_method_arities(members@.take(i as int)));
                        assert(declared_methods(members@.take(i + 1)) == declared_methods(members@.take(i as int)));
                        assert forall|k: Seq<char>| #[trigger] last_method_body(members@.take(i + 1), k) == last_method_body(
                            members@.take(i as int),
                            k,
                        ) by {}
                    }
                },
            }
            i = i + 1;
        }
        proof {
            sdef.scopes.lemma_types_kept_lookup(self.scopes);
            assert(members@.take(members@.len() as int) =~= members@);
            let base = old(self).cur().protos@.len();
            lemma_method_maps(members@, base, members@.len() as int);
            if methods_not_operator_named(members@) {
                assert forall|k: Seq<char>| #[trigger] declared_method_arities(members@).contains_key(k) implies self.cur().protos@[
                    method_namespace(members@, base)[k].0 as int].arity == declared_method_arities(members@)[k] by {
                    assert(nsv.locals@.contains_key(k));
                    assert(declared_method_arities(members@.take(members@.len() as int)).contains_key(k));
                }
            }
            if methods_not_operator_named(members@) {
                assert forall|k: Seq<char>| #[trigger] declared_methods(members@).contains_key(k) implies body_compiled(
                    self.cur().protos@[method_namespace(members@, base)[k].0 as int],
                    last_method_body(members@, k),
                    class_name@ + "::"@ + k,
                    class_name@,
                    false,
                    old(self).proto_depth,
                ) by {
                    assert(nsv.locals@.contains_key(k));
                    assert(declared_methods(members@.take(members@.len() as int)).contains_key(k));
                }
            }
            if bodiless_members(members@) && methods_not_operator_named(members@) {
                assert forall|k: Seq<char>| #[trigger] declared_methods(members@).contains_key(k) implies (self.scopes.spec_resolve(
                    class_name@ + "::"@ + k,
                ) matches Some((l, _)) && l.reg == 0 && crate::scope::view_backing(l.backing) == Some(
                    ConstantValueV::FunctionProto(method_namespace(members@, base)[k].0),
                ) && l.ty@ is Function && !l.mutable && !l.moved) by {
                    assert(nsv.locals@.contains_key(k));
                    assert(declared_methods(members@.take(members@.len() as int)).contains_key(k));
                }
            }
        }
        Ok(())
    }
}

impl LucyCompiler {
    /// Compiles a program into the current prototype and ends it with a
    /// return.
    pub fn compile(&mut self, program: &AstNode) -> (r: Result<(), CompileError>)
        requires
            old(self).ready(),
            needs_scope(program@) ==> old(self).scopes.scopes@.len() > 0,
        ensures
            r is Ok ==> final(self).extends(*old(self)),
            program@ is Program ==> (r is Ok ==> final(self).reg_alloc.current_top == old(self).reg_alloc.current_top),
            r is Ok ==> final(self).cur().code@.len() > 0 && final(self).cur().code@.last() == instr_abc(
                Opcode::RET,
                0,
                0,
                0,
            ),
            r is Ok ==> !unhandled_stmt(program@),
            program@ matches AstNodeV::Program(stmts) ==> (r is Ok ==> forall|k: int| 0 <= k < stmts.len() ==> !unhandled_stmt(
                #[trigger] stmts[k],
            )),
            program@ matches AstNodeV::Program(stmts) ==> (r is Ok && ends_declaring_main(stmts) ==> ends_calling_loaded(
                final(self).cur().code@.drop_last(),
            )),
            program@ matches AstNodeV::Program(stmts) ==> (old(self).literal_declarations(stmts) && old(
                self,
            ).reg_alloc.current_top + stmts.len() <= usize::MAX ==> r is Ok),
            program@ == AstNodeV::Program(Seq::empty()) ==> r is Ok && final(self).cur().code@ == old(
                self,
            ).empty_program_code().push(instr_abc(Opcode::RET, 0, 0, 0)),
    {
        let ctx = CompilingCtx::new();
        match self.compile_stmt(program, &ctx) {
            Ok(()) => {},
            Err(e) => return Err(e),
        }
        let ghost s1 = *self;
        self.emit_abc(Opcode::RET, 0, 0, 0);
        proof {
            Self::lemma_emitted_extends(*self, s1, instr_abc(Opcode::RET, 0, 0, 0));
            assert(self.cur().code@.drop_last() == s1.cur().code@);
            Self::lemma_extends_trans(*old(self), s1, *self);
        }
        Ok(())
    }

    /// Compiles an imported source file in a prototype and a scope of its
    /// own, and gives the namespace of what it exports: each exported name,
    /// public, with its register, and an empty child for each namespace it
    /// binds. The prototype itself is dropped.
    pub fn compile_import_file(&mut self, program: &AstNode, ctx: &CompilingCtx) -> (r: Result<Namespace, CompileError>)
        requires
            old(self).ready(),
        ensures
            r is Ok ==> {
                &&& final(self).proto_stack@ == old(self).proto_stack@
                &&& final(self).proto_depth == old(self).proto_depth
                &&& final(self).reg_alloc.current_top == old(self).reg_alloc.current_top
                &&& final(self).scopes.scopes@.len() == old(self).scopes.scopes@.len()
                &&& final(self).native_protos == old(self).native_protos
                &&& final(self).native_namespaces == old(self).native_namespaces
                &&& final(self).file_namespaces == old(self).file_namespaces
            },
            r matches Ok(ns) ==> forall|k: Seq<char>| #[trigger] ns.locals@.contains_key(k) ==> ns.locals@[k].1,
            !(program@ is Program) ==> r is Err,
            old(self).proto_depth == usize::MAX ==> r is Err,
            r is Ok ==> (program@ matches AstNodeV::Program(stmts) && forall|k: int| 0 <= k < stmts.len() ==> !unhandled_stmt(
                #[trigger] stmts[k],
            )),
            program@ matches AstNodeV::Program(stmts) ==> (old(self).literal_declarations(stmts) && old(self).proto_depth
                < usize::MAX ==> r is Ok),
            program@ matches AstNodeV::Program(stmts) ==> (old(self).literal_declarations(stmts) && old(self).proto_depth
                < usize::MAX ==> (r matches Ok(ns) && ns.locals@ == exports_after(Map::empty(), stmts, 0, ctx.is_public).map_values(
                |reg: usize| (reg, true),
            ))),
            program@ == AstNodeV::Program(Seq::empty()) && old(self).proto_depth < usize::MAX ==> (r matches Ok(ns)
                && ns.locals@ == Map::<Seq<char>, (usize, bool)>::empty() && ns.children@.len() == 0),
    {
        match self.enter_proto_checked(String::from_str("__import__"), 0) {
            Ok(()) => {},
            Err(e) => return Err(e),
        }
        self.enter_scope();
        let stmts = match program {
            AstNode::Program(s) => s,
            _ => {
                return Err(CompileError::Unsupported(String::from_str("Expected Program")));
            },
        };
        let ghost s1 = *self;
        proof {
            crate::syntax::lemma_view_asts(stmts@);
            assert(program@ == AstNodeV::Program(crate::syntax::view_asts(stmts@)));
            assert forall|k: Seq<char>| #[trigger] self.scopes.spec_lookup_type(k) == old(self).scopes.spec_lookup_type(k) by {
                let s = self.scopes.scopes@;
                assert(!s.last().types@.contains_key(k));
                assert(crate::scope::innermost_type(s, k) == crate::scope::innermost_type(s.drop_last(), k));
                crate::scope::lemma_innermost_type(old(self).scopes.scopes@, k);
                let at = crate::scope::innermost_type(old(self).scopes.scopes@, k);
                if at >= 0 {
                    assert(s[at] == s.drop_last()[at]);
                }
            }
            Self::lemma_literal_declarations_frame(*self, *old(self), crate::syntax::view_asts(stmts@));
            assert(self.reg_alloc.current_top == 0);
        }
        let n_stmts: usize = stmts.len();
        proof {
            assert(stmts@.len() == n_stmts);
        }
        match self.compile_stmts(stmts, ctx) {
            Ok(()) => {},
            Err(e) => return Err(e),
        }
        proof {
            assert forall|k: int| 0 <= k < crate::syntax::view_asts(stmts@).len() implies !unhandled_stmt(
                #[trigger] crate::syntax::view_asts(stmts@)[k],
            ) by {
                assert(crate::syntax::view_asts(stmts@)[k] == stmts@[k]@);
            }
        }
        let mut ns = Namespace::new();
        {
            let scope = self.scopes.get_current_scope();
            let mut i: usize = 0;
            while i < scope.exports.len()
                invariant
                    forall|k: Seq<char>| #[trigger] ns.locals@.contains_key(k) ==> ns.locals@[k].1,
                    i <= scope.exports.bindings().len(),
                    i == 0 ==> ns.locals@ == Map::<Seq<char>, (usize, bool)>::empty(),
                    ns.children@.len() == 0,
                    ns.locals@ == crate::name_map::bindings_map(scope.exports.bindings().take(i as int)).map_values(
                        |reg: usize| (reg, true),
                    ),
                decreases scope.exports.bindings().len() - i,
            {
                let reg = *scope.exports.value_at(i);
                let ghost before = ns.locals@;
                ns.locals.insert(scope.exports.key_at(i).clone(), (reg, true));
                proof {
                    let bs = scope.exports.bindings();
                    assert(bs.take(i + 1) =~= bs.take(i as int).push(bs[i as int]));
                    crate::name_map::lemma_bindings_map_push(bs.take(i as int), bs[i as int]);
                    assert(ns.locals@ =~= crate::name_map::bindings_map(bs.take(i + 1)).map_values(|reg: usize| (reg, true)));
                }
                i = i + 1;
            }
            proof {
                let bs = scope.exports.bindings();
                assert(bs.take(bs.len() as int) =~= bs);
                assert(ns.locals@ == scope.exports@.map_values(|reg: usize| (reg, true)));
            }
            let ghost locals = ns.locals@;
            let mut i: usize = 0;
            while i < scope.namespaces.len()
                invariant
                    forall|k: Seq<char>| #[trigger] ns.locals@.contains_key(k) ==> ns.locals@[k].1,
                    ns.locals@ == locals,
                    i <= scope.namespaces.bindings().len(),
                    ns.children@.len() == i,
                decreases scope.namespaces.bindings().len() - i,
            {
                ns.children.push((scope.namespaces.key_at(i).clone(), Namespace::new()));
                i = i + 1;
            }
        }
        self.exit_scope();
        self.exit_proto();
        proof {
            assert(self.proto_stack@ =~= old(self).proto_stack@);
        }
        Ok(ns)
    }

    /// Compiles the source file at `path` and registers the namespace of
    /// what it exports, for programs that import that path.
    pub fn import_file(&mut self, path: &str, program: &AstNode) -> (r: Result<(), CompileError>)
        requires
            old(self).ready(),
        ensures
            r is Ok ==> final(self).file_namespaces@.contains_key(path@) && final(self).ready()
                && final(self).proto_stack@ == old(self).proto_stack@
                && final(self).scopes.scopes@.len() == old(self).scopes.scopes@.len(),
            !(program@ is Program) ==> r is Err,
            old(self).proto_depth == usize::MAX ==> r is Err,
            r is Ok ==> final(self).file_namespaces@.remove(path@) == old(self).file_namespaces@.remove(path@),
            r is Ok ==> (program@ matches AstNodeV::Program(stmts) && forall|k: int| 0 <= k < stmts.len() ==> !unhandled_stmt(
                #[trigger] stmts[k],
            )),
            program@ matches AstNodeV::Program(stmts) ==> (old(self).literal_declarations(stmts) && old(self).proto_depth
                < usize::MAX ==> r is Ok),
            program@ matches AstNodeV::Program(stmts) ==> (old(self).literal_declarations(stmts) && old(self).proto_depth
                < usize::MAX ==> final(self).file_namespaces@[path@].locals@ == exports_after(Map::empty(), stmts, 0, false).map_values(
                |reg: usize| (reg, true),
            )),
            program@ == AstNodeV::Program(Seq::empty()) && old(self).proto_depth < usize::MAX ==> (r is Ok
                && final(self).file_namespaces@[path@].locals@ == Map::<Seq<char>, (usize, bool)>::empty()
                && final(self).file_namespaces@[path@].children@.len() == 0),
    {
        let ctx = CompilingCtx::new();
        let ns = match self.compile_import_file(program, &ctx) {
            Ok(ns) => ns,
            Err(e) => return Err(e),
        };
        let ghost fns = self.file_namespaces@;
        let key = String::from_str(path);
        self.file_namespaces.insert(key, ns);
        proof {
            assert(self.file_namespaces@.remove(path@) =~= fns.remove(path@));
        }
        Ok(())
    }
}

} // verus!
