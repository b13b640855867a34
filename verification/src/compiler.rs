use vstd::prelude::*;
use crate::bytecode::{
    ConstantValue, ConstantValueV, FunctionProto, NativeFunctionProto, Opcode, UpvalueDescriptor, UpvalueSource,
    opcode_number, pack_abc, pack_abx, spec_opcode_number, spec_pack_abc, spec_pack_abx, view_constants,
};
use crate::name_map::NameMap;
pub use crate::scope::{Local, LocalResolution, Namespace, RegisterAllocator, Scope, ScopeStack};
use crate::ty::{Type, TypeArena, TypeV};

verus! {

/// Why a program does not compile.
#[derive(Debug)]
pub enum CompileError {
    /// The program is not well typed.
    TypeError(String),
    /// The program uses a construct or a name that cannot be compiled.
    Unsupported(String),
    /// The program imports the source file at this path, and no namespace
    /// compiled from it has been registered.
    MissingImport(String),
}

/// Collects native functions into a namespace while registering them in a
/// table of native functions. The builder holds the table while it works,
/// and hands it back with the namespace when it is taken apart.
pub struct NamespaceBuilder {
    native_protos: Vec<NativeFunctionProto>,
    namespace: Namespace,
}

/// Appends native function `name` taking `arity` arguments to `table` and
/// gives its index.
fn register_native(table: &mut Vec<NativeFunctionProto>, name: &str, arity: u8) -> (idx: usize)
    ensures
        idx == old(table)@.len(),
        final(table)@ == old(table)@.push(NativeFunctionProto { name: final(table)@.last().name, arity }),
        final(table)@.last().name@ == name@,
{
    let idx = table.len();
    table.push(NativeFunctionProto { name: String::from_str(name), arity });
    idx
}

impl NamespaceBuilder {
    /// A builder with an empty namespace that registers into `native_protos`.
    pub fn new(native_protos: Vec<NativeFunctionProto>) -> (b: Self)
        ensures
            b.namespace().locals@ == Map::<Seq<char>, (usize, bool)>::empty(),
            b.namespace().children@.len() == 0,
            b.namespace().types@ == Map::<Seq<char>, Type>::empty(),
            b.natives() == native_protos@,
    {
        NamespaceBuilder { native_protos, namespace: Namespace::new() }
    }

    pub closed spec fn namespace(&self) -> Namespace {
        self.namespace
    }

    /// The table of native functions registered into.
    pub closed spec fn natives(&self) -> Seq<NativeFunctionProto> {
        self.native_protos@
    }

    /// Registers native function `name` taking `arity` arguments and binds it
    /// (public) in the namespace under its index. The host keeps the
    /// function itself under the same index.
    pub fn function(self, name: &str, arity: u8) -> (b: Self)
        ensures
            b.namespace().locals@ == self.namespace().locals@.insert(name@, (self.natives().len() as usize, true)),
            b.natives() == self.natives().push(NativeFunctionProto { name: b.natives().last().name, arity }),
            b.natives().last().name@ == name@,
            b.namespace().children == self.namespace().children,
            b.namespace().types == self.namespace().types,
    {
        let mut b = self;
        let idx = register_native(&mut b.native_protos, name, arity);
        b.namespace.locals.insert(String::from_str(name), (idx, true));
        b
    }

    pub fn build(self) -> (ns: Namespace)
        ensures
            ns == self.namespace(),
    {
        self.namespace
    }

    /// Takes the builder apart into its table of native functions and its
    /// namespace.
    pub fn into_parts(self) -> (r: (Vec<NativeFunctionProto>, Namespace))
        ensures
            r.0@ == self.natives(),
            r.1 == self.namespace(),
    {
        (self.native_protos, self.namespace)
    }
}

/// Compiles syntax trees to function prototypes.
pub struct LucyCompiler {
    pub reg_alloc: RegisterAllocator,
    pub scopes: ScopeStack,
    pub proto_stack: Vec<FunctionProto>,
    pub native_protos: Vec<NativeFunctionProto>,
    pub native_namespaces: NameMap<Namespace>,
    /// Namespaces of imported source files, by path.
    pub file_namespaces: NameMap<Namespace>,
    pub proto_depth: usize,
    pub type_arena: TypeArena,
}

/// Whether `a` is a prefix of `b`.
pub open spec fn is_prefix<T>(a: Seq<T>, b: Seq<T>) -> bool {
    a.len() <= b.len() && forall|i: int| 0 <= i < a.len() ==> #[trigger] a[i] == b[i]
}

/// `a`, then `b`, then `c`.
pub fn text3(a: &str, b: &str, c: &str) -> (s: String)
    ensures
        s@ == a@ + b@ + c@,
{
    let mut s = String::from_str(a);
    s.append(b);
    s.append(c);
    s
}


/// What the compiler knows while compiling a statement.
pub struct CompilingCtx {
    pub is_public: bool,
    /// Declared return type of the function being compiled (`Unknown`: take
    /// the type of the first return).
    pub return_type: Type,
    /// The class being compiled, which `self` and `Self` refer to.
    pub current_class: Option<String>,
}

impl CompilingCtx {
    /// The name of the class being compiled, if any.
    pub open spec fn class_name(&self) -> Option<Seq<char>> {
        match self.current_class {
            Some(n) => Some(n@),
            None => None,
        }
    }

    pub fn new() -> (c: Self)
        ensures
            !c.is_public,
            c.return_type@ == TypeV::Unknown,
            c.current_class is None,
    {
        CompilingCtx { is_public: false, return_type: Type::Unknown, current_class: None }
    }

    pub fn copy(&self) -> (c: Self)
        ensures
            c.is_public == self.is_public,
            c.return_type@ == self.return_type@,
            c.current_class == self.current_class,
    {
        let current_class = match &self.current_class {
            Some(s) => Some(s.clone()),
            None => None,
        };
        CompilingCtx { is_public: self.is_public, return_type: self.return_type.copy(), current_class }
    }
}

/// Index of the first constant of `cs` equal to `c`, or -1.
pub open spec fn first_constant_index(cs: Seq<ConstantValue>, c: ConstantValueV) -> int
    decreases cs.len(),
{
    if cs.len() == 0 {
        -1
    } else if cs[0]@ == c {
        0
    } else {
        let r = first_constant_index(cs.drop_first(), c);
        if r < 0 {
            -1
        } else {
            r + 1
        }
    }
}

pub proof fn lemma_first_constant_index(cs: Seq<ConstantValue>, c: ConstantValueV)
    ensures
        -1 <= first_constant_index(cs, c) < cs.len(),
        first_constant_index(cs, c) >= 0 ==> cs[first_constant_index(cs, c)]@ == c,
        forall|j: int| 0 <= j < cs.len() && (first_constant_index(cs, c) < 0 || j < first_constant_index(cs, c))
            ==> (#[trigger] cs[j])@ != c,
    decreases cs.len(),
{
    if cs.len() > 0 && cs[0]@ != c {
        lemma_first_constant_index(cs.drop_first(), c);
        assert forall|j: int| 0 <= j < cs.len() && (first_constant_index(cs, c) < 0 || j < first_constant_index(cs, c))
            implies (#[trigger] cs[j])@ != c by {
            if j > 0 {
                assert(cs[j] == cs.drop_first()[j - 1]);
            }
        }
    }
}

/// Index of the first upvalue of `us` named `name`, or -1.
pub open spec fn first_upvalue_index(us: Seq<UpvalueDescriptor>, name: Seq<char>) -> int
    decreases us.len(),
{
    if us.len() == 0 {
        -1
    } else if us[0].name@ == name {
        0
    } else {
        let r = first_upvalue_index(us.drop_first(), name);
        if r < 0 {
            -1
        } else {
            r + 1
        }
    }
}

pub proof fn lemma_first_upvalue_index(us: Seq<UpvalueDescriptor>, name: Seq<char>)
    ensures
        -1 <= first_upvalue_index(us, name) < us.len(),
        first_upvalue_index(us, name) >= 0 ==> us[first_upvalue_index(us, name)].name@ == name,
        forall|j: int| 0 <= j < us.len() && (first_upvalue_index(us, name) < 0 || j < first_upvalue_index(us, name))
            ==> (#[trigger] us[j]).name@ != name,
    decreases us.len(),
{
    if us.len() > 0 && us[0].name@ != name {
        lemma_first_upvalue_index(us.drop_first(), name);
        assert forall|j: int| 0 <= j < us.len() && (first_upvalue_index(us, name) < 0 || j < first_upvalue_index(us, name))
            implies (#[trigger] us[j]).name@ != name by {
            if j > 0 {
                assert(us[j] == us.drop_first()[j - 1]);
            }
        }
    }
}

impl LucyCompiler {
    /// The compiler's own consistency: one prototype on the stack per level of
    /// function nesting.
    pub open spec fn wf(&self) -> bool {
        self.proto_stack@.len() == self.proto_depth
    }

    /// Ready to compile: a prototype is open.
    pub open spec fn ready(&self) -> bool {
        self.wf() && self.proto_depth > 0
    }

    /// What compiling keeps of the compiler it started from (`prior`): the
    /// enclosing prototypes, the name and arity of the current one, the
    /// libraries and the nesting are unchanged; code, constants, nested
    /// prototypes, upvalues and classes are only added to; there are as many
    /// scopes as before, each starting its registers where it did, and all
    /// but the innermost bind the same types.
    pub open spec fn extends(self, prior: LucyCompiler) -> bool {
        &&& self.proto_depth == prior.proto_depth
        &&& self.proto_stack@.len() == prior.proto_stack@.len()
        &&& self.proto_stack@.drop_last() == prior.proto_stack@.drop_last()
        &&& self.cur().name == prior.cur().name
        &&& self.cur().arity == prior.cur().arity
        &&& self.cur().saved_reg_top == prior.cur().saved_reg_top
        &&& is_prefix(prior.cur().code@, self.cur().code@)
        &&& is_prefix(prior.cur().constants@, self.cur().constants@)
        &&& is_prefix(prior.cur().protos@, self.cur().protos@)
        &&& is_prefix(prior.cur().upvalues@, self.cur().upvalues@)
        &&& self.native_protos == prior.native_protos
        &&& self.native_namespaces == prior.native_namespaces
        &&& self.file_namespaces == prior.file_namespaces
        &&& is_prefix(prior.type_arena.classes@, self.type_arena.classes@)
        &&& self.scopes.scopes@.len() == prior.scopes.scopes@.len()
        &&& prior.scopes.types_kept(self.scopes, prior.scopes.scopes@.len() - 1)
        &&& prior.scopes.namespaces_kept(self.scopes, prior.scopes.scopes@.len() - 1)
        &&& prior.scopes.bases_kept(self.scopes)
    }

    /// The prototype being compiled into.
    pub open spec fn cur(&self) -> FunctionProto {
        self.proto_stack@.last()
    }

    /// Registers a native function and gives its index.
    pub fn lulib_register_native_fn(&mut self, name: &str, arity: u8) -> (idx: usize)
        ensures
            idx == old(self).native_protos@.len(),
            final(self).native_protos@ == old(self).native_protos@.push(
                NativeFunctionProto { name: final(self).native_protos@.last().name, arity },
            ),
            final(self).native_protos@.last().name@ == name@,
            final(self).proto_stack == old(self).proto_stack,
            final(self).scopes == old(self).scopes,
            final(self).native_namespaces == old(self).native_namespaces,
            final(self).file_namespaces == old(self).file_namespaces,
            final(self).proto_depth == old(self).proto_depth,
            final(self).reg_alloc == old(self).reg_alloc,
            final(self).type_arena == old(self).type_arena,
    {
        register_native(&mut self.native_protos, name, arity)
    }

    /// Builds a library namespace with `build` and makes it importable under
    /// `path`: `build` is handed a fresh builder on this compiler's table of
    /// native functions; the table of the builder it gives back becomes the
    /// compiler's, and its namespace is bound to `path`, the other paths
    /// keeping theirs. Nothing else changes.
    pub fn lulib_openlib<F>(&mut self, path: &str, build: F)
        where F: FnOnce(NamespaceBuilder) -> NamespaceBuilder,
        requires
            forall|b: NamespaceBuilder| #[trigger] build.requires((b,)),
        ensures
            exists|b0: NamespaceBuilder, b1: NamespaceBuilder| {
                &&& b0.namespace().locals@ == Map::<Seq<char>, (usize, bool)>::empty()
                &&& b0.namespace().children@.len() == 0
                &&& b0.namespace().types@ == Map::<Seq<char>, Type>::empty()
                &&& b0.natives() == old(self).native_protos@
                &&& #[trigger] call_ensures(build, (b0,), b1)
                &&& final(self).native_protos@ == b1.natives()
                &&& final(self).native_namespaces@ == old(self).native_namespaces@.insert(path@, b1.namespace())
            },
            final(self).scopes == old(self).scopes,
            final(self).proto_stack == old(self).proto_stack,
            final(self).file_namespaces == old(self).file_namespaces,
            final(self).proto_depth == old(self).proto_depth,
            final(self).reg_alloc == old(self).reg_alloc,
            final(self).type_arena == old(self).type_arena,
    {
        let mut table: Vec<NativeFunctionProto> = Vec::new();
        std::mem::swap(&mut table, &mut self.native_protos);
        let b0 = NamespaceBuilder::new(table);
        let ghost g0 = b0;
        let b1 = build(b0);
        let ghost g1 = b1;
        let (table, ns) = b1.into_parts();
        self.native_protos = table;
        self.native_namespaces.insert(String::from_str(path), ns);
        assert(call_ensures(build, (g0,), g1));
    }

    /// Builds a namespace with `build` and binds it to `name` in the
    /// innermost scope: `build` is handed a fresh builder on this compiler's
    /// table of native functions; the table of the builder it gives back
    /// becomes the compiler's, and its namespace is bound. Every other binding
    /// of every scope stays, and nothing else changes.
    pub fn lulib_register_namespace<F>(&mut self, name: &str, build: F)
        where F: FnOnce(NamespaceBuilder) -> NamespaceBuilder,
        requires
            old(self).scopes.scopes@.len() > 0,
            forall|b: NamespaceBuilder| #[trigger] build.requires((b,)),
        ensures
            exists|b0: NamespaceBuilder, b1: NamespaceBuilder| {
                &&& b0.namespace().locals@ == Map::<Seq<char>, (usize, bool)>::empty()
                &&& b0.namespace().children@.len() == 0
                &&& b0.namespace().types@ == Map::<Seq<char>, Type>::empty()
                &&& b0.natives() == old(self).native_protos@
                &&& #[trigger] call_ensures(build, (b0,), b1)
                &&& final(self).native_protos@ == b1.natives()
                &&& final(self).scopes.scopes@.last().namespaces@ == old(self).scopes.scopes@.last().namespaces@.insert(
                    name@,
                    b1.namespace(),
                )
            },
            final(self).scopes.scopes@.len() == old(self).scopes.scopes@.len(),
            final(self).scopes.scopes@.drop_last() == old(self).scopes.scopes@.drop_last(),
            final(self).scopes.scopes@.last().locals == old(self).scopes.scopes@.last().locals,
            final(self).scopes.scopes@.last().exports == old(self).scopes.scopes@.last().exports,
            final(self).scopes.scopes@.last().types == old(self).scopes.scopes@.last().types,
            final(self).scopes.scopes@.last().proto_depth == old(self).scopes.scopes@.last().proto_depth,
            final(self).scopes.scopes@.last().reg_base == old(self).scopes.scopes@.last().reg_base,
            final(self).native_namespaces == old(self).native_namespaces,
            final(self).proto_stack == old(self).proto_stack,
            final(self).file_namespaces == old(self).file_namespaces,
            final(self).proto_depth == old(self).proto_depth,
            final(self).reg_alloc == old(self).reg_alloc,
            final(self).type_arena == old(self).type_arena,
    {
        let mut table: Vec<NativeFunctionProto> = Vec::new();
        std::mem::swap(&mut table, &mut self.native_protos);
        let b0 = NamespaceBuilder::new(table);
        let ghost g0 = b0;
        let b1 = build(b0);
        let ghost g1 = b1;
        let (table, ns) = b1.into_parts();
        self.native_protos = table;
        self.scopes.define_namespace(String::from_str(name), ns);
        assert(call_ensures(build, (g0,), g1));
    }

    /// A compiler positioned in the top-level prototype `__main__`.
    pub fn new() -> (c: Self)
        ensures
            c.wf(),
            c.proto_depth == 1,
            c.proto_stack@.len() == 1,
            c.cur().name@ == "__main__"@,
            c.cur().arity == 0,
            c.cur().code@.len() == 0,
            c.cur().constants@.len() == 0,
            c.cur().protos@.len() == 0,
            c.cur().upvalues@.len() == 0,
            c.scopes.scopes@.len() == 0,
            c.native_protos@.len() == 0,
            c.native_namespaces@ == Map::<Seq<char>, Namespace>::empty(),
            c.file_namespaces@ == Map::<Seq<char>, Namespace>::empty(),
            c.reg_alloc.current_top == 0,
            c.type_arena.classes@.len() == 0,
            c.cur().max_regs == 0,
            c.cur().saved_reg_top == 0,
    {
        let mut s = LucyCompiler {
            reg_alloc: RegisterAllocator { current_top: 0 },
            scopes: ScopeStack::new(),
            proto_stack: Vec::new(),
            native_protos: Vec::new(),
            native_namespaces: NameMap::new(),
            file_namespaces: NameMap::new(),
            proto_depth: 0,
            type_arena: TypeArena::new(),
        };
        s.enter_proto(String::from_str("__main__"), 0);
        s
    }

    /// Opens a scope whose registers start at the current register top.
    pub fn enter_scope(&mut self)
        ensures
            final(self).scopes.scopes@.len() == old(self).scopes.scopes@.len() + 1,
            final(self).scopes.scopes@.drop_last() == old(self).scopes.scopes@,
            final(self).scopes.scopes@.last().reg_base == old(self).reg_alloc.current_top,
            final(self).scopes.scopes@.last().proto_depth == old(self).proto_depth,
            final(self).scopes.scopes@.last().locals@ == Map::<Seq<char>, crate::scope::Local>::empty(),
            final(self).scopes.scopes@.last().exports@ == Map::<Seq<char>, usize>::empty(),
            final(self).scopes.scopes@.last().exports.bindings().len() == 0,
            final(self).scopes.scopes@.last().namespaces.bindings().len() == 0,
            final(self).scopes.scopes@.last().types@ == Map::<Seq<char>, Type>::empty(),
            final(self).scopes.scopes@.last().namespaces@ == Map::<Seq<char>, Namespace>::empty(),
            final(self).reg_alloc == old(self).reg_alloc,
            final(self).proto_stack == old(self).proto_stack,
            final(self).proto_depth == old(self).proto_depth,
            final(self).native_protos == old(self).native_protos,
            final(self).native_namespaces == old(self).native_namespaces,
            final(self).file_namespaces == old(self).file_namespaces,
            final(self).type_arena == old(self).type_arena,
    {
        let base = self.reg_alloc.current_top;
        self.scopes.push(base, self.proto_depth);
    }

    /// Closes the innermost scope and frees the registers it used.
    pub fn exit_scope(&mut self)
        requires
            old(self).scopes.scopes@.len() > 0,
        ensures
            final(self).scopes.scopes@ == old(self).scopes.scopes@.drop_last(),
            final(self).reg_alloc.current_top == old(self).scopes.scopes@.last().reg_base,
            final(self).proto_stack == old(self).proto_stack,
            final(self).proto_depth == old(self).proto_depth,
            final(self).native_protos == old(self).native_protos,
            final(self).native_namespaces == old(self).native_namespaces,
            final(self).file_namespaces == old(self).file_namespaces,
            final(self).type_arena == old(self).type_arena,
    {
        let base = self.scopes.pop();
        self.reg_alloc.free_to(base);
    }

    pub(crate) fn current_proto(&mut self) -> (p: &mut FunctionProto)
        requires
            old(self).proto_stack@.len() > 0,
        ensures
            *p == old(self).cur(),
            final(self).proto_stack@ == old(self).proto_stack@.update(old(self).proto_stack@.len() - 1, *final(p)),
            final(self).scopes == old(self).scopes,
            final(self).reg_alloc == old(self).reg_alloc,
            final(self).proto_depth == old(self).proto_depth,
            final(self).native_protos == old(self).native_protos,
            final(self).native_namespaces == old(self).native_namespaces,
            final(self).file_namespaces == old(self).file_namespaces,
            final(self).type_arena == old(self).type_arena,
    {
        let i = self.proto_stack.len() - 1;
        &mut self.proto_stack[i]
    }

    /// Appends an instruction to the current prototype and gives its index.
    pub fn emit(&mut self, op: u32) -> (at: usize)
        requires
            old(self).proto_stack@.len() > 0,
        ensures
            at == old(self).cur().code@.len(),
            final(self).proto_stack@.len() == old(self).proto_stack@.len(),
            final(self).proto_stack@.drop_last() == old(self).proto_stack@.drop_last(),
            final(self).cur().code@ == old(self).cur().code@.push(op),
            final(self).cur().constants == old(self).cur().constants,
            final(self).cur().protos == old(self).cur().protos,
            final(self).cur().upvalues == old(self).cur().upvalues,
            final(self).cur().name == old(self).cur().name,
            final(self).cur().arity == old(self).cur().arity,
            final(self).cur().saved_reg_top == old(self).cur().saved_reg_top,
            final(self).cur().max_regs == old(self).cur().max_regs,
            final(self).scopes == old(self).scopes,
            final(self).reg_alloc == old(self).reg_alloc,
            final(self).proto_depth == old(self).proto_depth,
            final(self).native_protos == old(self).native_protos,
            final(self).native_namespaces == old(self).native_namespaces,
            final(self).file_namespaces == old(self).file_namespaces,
            final(self).type_arena == old(self).type_arena,
    {
        let proto = self.current_proto();
        proto.code.push(op);
        let at = proto.code.len() - 1;
        proof {
            assert(self.proto_stack@.drop_last() =~= old(self).proto_stack@.drop_last());
        }
        at
    }

    /// The index of `c` in the current prototype's constant table, adding it
    /// when no equal constant is there yet.
    pub fn add_constant(&mut self, c: ConstantValue) -> (k: usize)
        requires
            old(self).proto_stack@.len() > 0,
        ensures
            first_constant_index(old(self).cur().constants@, c@) >= 0 ==> k == first_constant_index(old(self).cur().constants@, c@)
                && final(self).cur().constants@ == old(self).cur().constants@,
            first_constant_index(old(self).cur().constants@, c@) < 0 ==> k == old(self).cur().constants@.len()
                && final(self).cur().constants@ == old(self).cur().constants@.push(c),
            k < final(self).cur().constants@.len(),
            final(self).cur().constants@[k as int]@ == c@,
            final(self).proto_stack@.len() == old(self).proto_stack@.len(),
            final(self).proto_stack@.drop_last() == old(self).proto_stack@.drop_last(),
            final(self).cur().code == old(self).cur().code,
            final(self).cur().protos == old(self).cur().protos,
            final(self).cur().upvalues == old(self).cur().upvalues,
            final(self).cur().name == old(self).cur().name,
            final(self).cur().arity == old(self).cur().arity,
            final(self).cur().saved_reg_top == old(self).cur().saved_reg_top,
            final(self).cur().max_regs == old(self).cur().max_regs,
            final(self).scopes == old(self).scopes,
            final(self).reg_alloc == old(self).reg_alloc,
            final(self).proto_depth == old(self).proto_depth,
            final(self).native_protos == old(self).native_protos,
            final(self).native_namespaces == old(self).native_namespaces,
            final(self).file_namespaces == old(self).file_namespaces,
            final(self).type_arena == old(self).type_arena,
    {
        let last = self.proto_stack.len() - 1;
        let mut i: usize = 0;
        proof {
            lemma_first_constant_index(self.cur().constants@, c@);
        }
        while i < self.proto_stack[last].constants.len()
            invariant
                last == self.proto_stack@.len() - 1,
                self == old(self),
                i <= self.cur().constants@.len(),
                forall|j: int| 0 <= j < i ==> (#[trigger] self.cur().constants@[j])@ != c@,
                -1 <= first_constant_index(self.cur().constants@, c@) < self.cur().constants@.len(),
                first_constant_index(self.cur().constants@, c@) >= 0 ==> self.cur().constants@[first_constant_index(self.cur().constants@, c@)]@ == c@,
                forall|j: int| 0 <= j < self.cur().constants@.len() && (first_constant_index(self.cur().constants@, c@) < 0 || j < first_constant_index(self.cur().constants@, c@))
                    ==> (#[trigger] self.cur().constants@[j])@ != c@,
            decreases self.cur().constants@.len() - i,
        {
            if self.proto_stack[last].constants[i].equals(&c) {
                return i;
            }
            i = i + 1;
        }
        let proto = self.current_proto();
        proto.constants.push(c);
        let k = proto.constants.len() - 1;
        proof {
            assert(self.proto_stack@.drop_last() =~= old(self).proto_stack@.drop_last());
        }
        k
    }

    /// Starts compiling a new function prototype nested in the current one;
    /// its registers start at 0.
    pub fn enter_proto(&mut self, name: String, arity: u8)
        requires
            old(self).proto_depth < usize::MAX,
        ensures
            final(self).proto_depth == old(self).proto_depth + 1,
            final(self).proto_stack@.len() == old(self).proto_stack@.len() + 1,
            final(self).proto_stack@.drop_last() == old(self).proto_stack@,
            final(self).cur().name == name,
            final(self).cur().arity == arity,
            final(self).cur().max_regs == 0,
            final(self).cur().code@.len() == 0,
            final(self).cur().constants@.len() == 0,
            final(self).cur().protos@.len() == 0,
            final(self).cur().upvalues@.len() == 0,
            final(self).cur().saved_reg_top == old(self).reg_alloc.current_top,
            final(self).reg_alloc.current_top == 0,
            final(self).scopes == old(self).scopes,
            final(self).native_protos == old(self).native_protos,
            final(self).native_namespaces == old(self).native_namespaces,
            final(self).file_namespaces == old(self).file_namespaces,
            final(self).type_arena == old(self).type_arena,
    {
        self.proto_depth = self.proto_depth + 1;
        let saved_top = self.reg_alloc.current_top;
        self.reg_alloc.current_top = 0;
        self.proto_stack.push(
            FunctionProto {
                name,
                arity,
                max_regs: 0,
                code: Vec::new(),
                constants: Vec::new(),
                protos: Vec::new(),
                upvalues: Vec::new(),
                saved_reg_top: saved_top,
            },
        );
        proof {
            assert(self.proto_stack@.drop_last() =~= old(self).proto_stack@);
        }
    }

    /// Finishes the current prototype and gives it back; the register top of
    /// the enclosing prototype is restored.
    pub fn exit_proto(&mut self) -> (p: FunctionProto)
        requires
            old(self).proto_stack@.len() > 0,
            old(self).proto_depth > 0,
        ensures
            p == old(self).cur(),
            final(self).proto_depth == old(self).proto_depth - 1,
            final(self).proto_stack@ == old(self).proto_stack@.drop_last(),
            final(self).reg_alloc.current_top == old(self).cur().saved_reg_top,
            final(self).scopes == old(self).scopes,
            final(self).native_protos == old(self).native_protos,
            final(self).native_namespaces == old(self).native_namespaces,
            final(self).file_namespaces == old(self).file_namespaces,
            final(self).type_arena == old(self).type_arena,
    {
        self.proto_depth = self.proto_depth - 1;
        let proto = self.proto_stack.pop().unwrap();
        self.reg_alloc.current_top = proto.saved_reg_top;
        proto
    }

    /// The index of the upvalue named `name` in the current prototype, adding
    /// one when there is none yet.
    pub fn capture_upvalue(&mut self, name: &String, source: UpvalueSource, ty: Type) -> (idx: usize)
        requires
            old(self).proto_stack@.len() > 0,
        ensures
            first_upvalue_index(old(self).cur().upvalues@, name@) >= 0 ==> idx == first_upvalue_index(old(self).cur().upvalues@, name@)
                && final(self).cur().upvalues@ == old(self).cur().upvalues@,
            first_upvalue_index(old(self).cur().upvalues@, name@) < 0 ==> idx == old(self).cur().upvalues@.len()
                && final(self).cur().upvalues@ == old(self).cur().upvalues@.push(UpvalueDescriptor {
                    name: final(self).cur().upvalues@.last().name,
                    source,
                    ty,
                }) && final(self).cur().upvalues@.last().name@ == name@,
            final(self).proto_stack@.len() == old(self).proto_stack@.len(),
            final(self).proto_stack@.drop_last() == old(self).proto_stack@.drop_last(),
            final(self).cur().code == old(self).cur().code,
            final(self).cur().constants == old(self).cur().constants,
            final(self).cur().protos == old(self).cur().protos,
            final(self).cur().name == old(self).cur().name,
            final(self).cur().arity == old(self).cur().arity,
            final(self).cur().saved_reg_top == old(self).cur().saved_reg_top,
            final(self).cur().max_regs == old(self).cur().max_regs,
            final(self).scopes == old(self).scopes,
            final(self).reg_alloc == old(self).reg_alloc,
            final(self).proto_depth == old(self).proto_depth,
            final(self).native_protos == old(self).native_protos,
            final(self).native_namespaces == old(self).native_namespaces,
            final(self).file_namespaces == old(self).file_namespaces,
            final(self).type_arena == old(self).type_arena,
    {
        let last = self.proto_stack.len() - 1;
        let mut i: usize = 0;
        proof {
            lemma_first_upvalue_index(self.cur().upvalues@, name@);
        }
        while i < self.proto_stack[last].upvalues.len()
            invariant
                last == self.proto_stack@.len() - 1,
                self == old(self),
                i <= self.cur().upvalues@.len(),
                forall|j: int| 0 <= j < i ==> (#[trigger] self.cur().upvalues@[j]).name@ != name@,
                -1 <= first_upvalue_index(self.cur().upvalues@, name@) < self.cur().upvalues@.len(),
                first_upvalue_index(self.cur().upvalues@, name@) >= 0 ==> self.cur().upvalues@[first_upvalue_index(self.cur().upvalues@, name@)].name@ == name@,
                forall|j: int| 0 <= j < self.cur().upvalues@.len() && (first_upvalue_index(self.cur().upvalues@, name@) < 0 || j < first_upvalue_index(self.cur().upvalues@, name@))
                    ==> (#[trigger] self.cur().upvalues@[j]).name@ != name@,
            decreases self.cur().upvalues@.len() - i,
        {
            if self.proto_stack[last].upvalues[i].name == *name {
                return i;
            }
            i = i + 1;
        }
        let proto = self.current_proto();
        let idx = proto.upvalues.len();
        proto.upvalues.push(UpvalueDescriptor { name: name.clone(), source, ty });
        proof {
            assert(self.proto_stack@.drop_last() =~= old(self).proto_stack@.drop_last());
        }
        idx
    }

    /// The innermost namespace bound to `name`.
    pub fn find_namespace_in_scopes<'b>(scopes: &'b ScopeStack, name: &String) -> (r: Option<&'b Namespace>)
        ensures
            match r {
                Some(ns) => scopes.spec_namespace(name@) == Some(*ns),
                None => scopes.spec_namespace(name@) is None,
            },
    {
        let mut i = scopes.scopes.len();
        proof {
            crate::scope::lemma_innermost_namespace(scopes.scopes@, name@);
        }
        while i > 0
            invariant
                i <= scopes.scopes@.len(),
                crate::scope::innermost_namespace(scopes.scopes@, name@) < i,
            decreases i,
        {
            if let Some(ns) = scopes.scopes[i - 1].namespaces.get(name) {
                proof {
                    crate::scope::lemma_innermost_namespace(scopes.scopes@, name@);
                }
                return Some(ns);
            }
            proof {
                crate::scope::lemma_innermost_namespace(scopes.scopes@, name@);
            }
            i = i - 1;
        }
        None
    }
}

} // verus!
