use vstd::prelude::*;
use crate::bytecode::{ConstantValue, ConstantValueV};
use crate::name_map::{NameMap, last_index_of};
use crate::ty::{Type, TypeV};

verus! {

/// A variable bound in a scope.
#[derive(Debug)]
pub struct Local {
    pub reg: usize,
    pub ty: Type,
    pub backing: Option<ConstantValue>,
    pub mutable: bool,
    pub moved: bool,
}

pub open spec fn view_backing(b: Option<ConstantValue>) -> Option<ConstantValueV> {
    match b {
        Some(c) => Some(c@),
        None => None,
    }
}

pub fn copy_backing(b: &Option<ConstantValue>) -> (r: Option<ConstantValue>)
    ensures
        view_backing(r) == view_backing(*b),
{
    match b {
        Some(c) => Some(c.copy()),
        None => None,
    }
}

/// A set of names that stand for functions (by index) and types.
#[derive(Debug)]
pub struct Namespace {
    pub children: Vec<(String, Namespace)>,
    /// Each name's index and whether it is public.
    pub locals: NameMap<(usize, bool)>,
    pub types: NameMap<Type>,
}

impl Namespace {
    pub fn new() -> (ns: Self)
        ensures
            ns.children@.len() == 0,
            ns.locals@ == Map::<Seq<char>, (usize, bool)>::empty(),
            ns.types@ == Map::<Seq<char>, Type>::empty(),
    {
        Namespace { children: Vec::new(), locals: NameMap::new(), types: NameMap::new() }
    }
}

/// `r` holds what `s` holds: the same local bindings, types of the same
/// names and views in the same order, and children of the same names, in
/// the same order, each holding what the child of `s` holds.
pub open spec fn copy_of(r: Namespace, s: Namespace) -> bool
    decreases s,
{
    &&& r.locals.bindings() == s.locals.bindings()
    &&& r.types.bindings().len() == s.types.bindings().len()
    &&& forall|i: int| 0 <= i < s.types.bindings().len() ==> (#[trigger] r.types.bindings()[i]).0 == s.types.bindings()[i].0
        && r.types.bindings()[i].1@ == s.types.bindings()[i].1@
    &&& r.children@.len() == s.children@.len()
    &&& forall|i: int| 0 <= i < s.children@.len() ==> (#[trigger] r.children@[i]).0 == s.children@[i].0 && copy_of(
        r.children@[i].1,
        s.children@[i].1,
    )
}

impl Namespace {
    /// A copy of this namespace and of the namespaces under it.
    pub fn copy(&self) -> (r: Namespace)
        ensures
            copy_of(r, *self),
            r.locals@ == self.locals@,
        decreases self,
    {
        let mut children: Vec<(String, Namespace)> = Vec::new();
        let mut i: usize = 0;
        while i < self.children.len()
            invariant
                i <= self.children@.len(),
                children@.len() == i,
                forall|j: int| 0 <= j < i ==> (#[trigger] children@[j]).0 == self.children@[j].0 && copy_of(
                    children@[j].1,
                    self.children@[j].1,
                ),
            decreases self.children@.len() - i,
        {
            proof {
                assert(decreases_to!(self => self.children@[i as int].1));
            }
            let c = self.children[i].1.copy();
            children.push((self.children[i].0.clone(), c));
            i = i + 1;
        }
        Namespace { children, locals: self.locals.copy(), types: self.types.copy_types() }
    }
}

/// A lexical scope.
#[derive(Debug)]
pub struct Scope {
    pub locals: NameMap<Local>,
    pub exports: NameMap<usize>,
    pub types: NameMap<Type>,
    pub namespaces: NameMap<Namespace>,
    pub proto_depth: usize,
    pub reg_base: usize,
}

/// Hands out registers as a stack.
pub struct RegisterAllocator {
    pub current_top: usize,
}

impl RegisterAllocator {
    /// The next free register; it becomes used.
    pub fn allocate(&mut self) -> (r: usize)
        requires
            old(self).current_top < usize::MAX,
        ensures
            r == old(self).current_top,
            final(self).current_top == old(self).current_top + 1,
    {
        let r = self.current_top;
        self.current_top = self.current_top + 1;
        r
    }

    /// Frees every register from `top` up.
    pub fn free_to(&mut self, top: usize)
        ensures
            final(self).current_top == top,
    {
        self.current_top = top;
    }
}

/// Where a name was found.
#[derive(Debug)]
pub enum LocalResolution {
    /// In the function being compiled.
    Local { reg: usize, ty: Type, backing: Option<ConstantValue>, mutable: bool, moved: bool },
    /// In an enclosing function.
    OuterProto { reg: usize, ty: Type, backing: Option<ConstantValue>, mutable: bool, moved: bool },
}

impl LocalResolution {
    /// Whether this resolution describes `l`, found in the function being
    /// compiled exactly when `here`.
    pub open spec fn describes(self, l: Local, here: bool) -> bool {
        match self {
            LocalResolution::Local { reg, ty, backing, mutable, moved } => {
                &&& here
                &&& reg == l.reg
                &&& ty@ == l.ty@
                &&& view_backing(backing) == view_backing(l.backing)
                &&& mutable == l.mutable
                &&& moved == l.moved
            },
            LocalResolution::OuterProto { reg, ty, backing, mutable, moved } => {
                &&& !here
                &&& reg == l.reg
                &&& ty@ == l.ty@
                &&& view_backing(backing) == view_backing(l.backing)
                &&& mutable == l.mutable
                &&& moved == l.moved
            },
        }
    }
}

/// Index of the innermost scope that binds local `name`, or -1.
pub open spec fn innermost_local(scopes: Seq<Scope>, name: Seq<char>) -> int
    decreases scopes.len(),
{
    if scopes.len() == 0 {
        -1
    } else if scopes.last().locals@.contains_key(name) {
        scopes.len() - 1
    } else {
        innermost_local(scopes.drop_last(), name)
    }
}

/// Index of the innermost scope that binds type `name`, or -1.
pub open spec fn innermost_type(scopes: Seq<Scope>, name: Seq<char>) -> int
    decreases scopes.len(),
{
    if scopes.len() == 0 {
        -1
    } else if scopes.last().types@.contains_key(name) {
        scopes.len() - 1
    } else {
        innermost_type(scopes.drop_last(), name)
    }
}

/// Index of the innermost scope that binds namespace `name`, or -1.
pub open spec fn innermost_namespace(scopes: Seq<Scope>, name: Seq<char>) -> int
    decreases scopes.len(),
{
    if scopes.len() == 0 {
        -1
    } else if scopes.last().namespaces@.contains_key(name) {
        scopes.len() - 1
    } else {
        innermost_namespace(scopes.drop_last(), name)
    }
}

pub proof fn lemma_innermost_local(scopes: Seq<Scope>, name: Seq<char>)
    ensures
        -1 <= innermost_local(scopes, name) < scopes.len(),
        innermost_local(scopes, name) >= 0 ==> scopes[innermost_local(scopes, name)].locals@.contains_key(name),
        forall|i: int| innermost_local(scopes, name) < i < scopes.len() ==> !(#[trigger] scopes[i]).locals@.contains_key(name),
    decreases scopes.len(),
{
    if scopes.len() > 0 && !scopes.last().locals@.contains_key(name) {
        lemma_innermost_local(scopes.drop_last(), name);
        assert forall|i: int| innermost_local(scopes, name) < i < scopes.len() implies !(#[trigger] scopes[i]).locals@.contains_key(name) by {
            if i < scopes.len() - 1 {
                assert(scopes[i] == scopes.drop_last()[i]);
            }
        }
    }
}

pub proof fn lemma_innermost_type(scopes: Seq<Scope>, name: Seq<char>)
    ensures
        -1 <= innermost_type(scopes, name) < scopes.len(),
        innermost_type(scopes, name) >= 0 ==> scopes[innermost_type(scopes, name)].types@.contains_key(name),
        forall|i: int| innermost_type(scopes, name) < i < scopes.len() ==> !(#[trigger] scopes[i]).types@.contains_key(name),
    decreases scopes.len(),
{
    if scopes.len() > 0 && !scopes.last().types@.contains_key(name) {
        lemma_innermost_type(scopes.drop_last(), name);
        assert forall|i: int| innermost_type(scopes, name) < i < scopes.len() implies !(#[trigger] scopes[i]).types@.contains_key(name) by {
            if i < scopes.len() - 1 {
                assert(scopes[i] == scopes.drop_last()[i]);
            }
        }
    }
}

pub proof fn lemma_innermost_namespace(scopes: Seq<Scope>, name: Seq<char>)
    ensures
        -1 <= innermost_namespace(scopes, name) < scopes.len(),
        innermost_namespace(scopes, name) >= 0 ==> scopes[innermost_namespace(scopes, name)].namespaces@.contains_key(name),
        forall|i: int| innermost_namespace(scopes, name) < i < scopes.len() ==> !(#[trigger] scopes[i]).namespaces@.contains_key(name),
    decreases scopes.len(),
{
    if scopes.len() > 0 && !scopes.last().namespaces@.contains_key(name) {
        lemma_innermost_namespace(scopes.drop_last(), name);
        assert forall|i: int| innermost_namespace(scopes, name) < i < scopes.len() implies !(#[trigger] scopes[i]).namespaces@.contains_key(name) by {
            if i < scopes.len() - 1 {
                assert(scopes[i] == scopes.drop_last()[i]);
            }
        }
    }
}

/// The stack of scopes being compiled, innermost last.
pub struct ScopeStack {
    pub scopes: Vec<Scope>,
}

impl ScopeStack {
    /// The type that `name` stands for, looked up from the innermost scope out.
    pub open spec fn spec_lookup_type(self, name: Seq<char>) -> Option<Type> {
        let i = innermost_type(self.scopes@, name);
        if i >= 0 {
            Some(self.scopes@[i].types@[name])
        } else {
            None
        }
    }

    /// The local that `name` stands for, from the innermost scope out, with
    /// the proto depth of the scope that binds it.
    pub open spec fn spec_resolve(self, name: Seq<char>) -> Option<(Local, usize)> {
        let i = innermost_local(self.scopes@, name);
        if i >= 0 {
            Some((self.scopes@[i].locals@[name], self.scopes@[i].proto_depth))
        } else {
            None
        }
    }

    /// The namespace that `name` stands for, from the innermost scope out.
    pub open spec fn spec_namespace(self, name: Seq<char>) -> Option<Namespace> {
        let i = innermost_namespace(self.scopes@, name);
        if i >= 0 {
            Some(self.scopes@[i].namespaces@[name])
        } else {
            None
        }
    }

    /// The scopes below `n` bind the same types in `post` as here.
    pub open spec fn types_kept(self, post: ScopeStack, n: int) -> bool {
        forall|i: int| 0 <= i < n ==> #[trigger] post.scopes@[i].types == self.scopes@[i].types
    }

    /// The scopes below `n` bind the same namespaces in `post` as here.
    pub open spec fn namespaces_kept(self, post: ScopeStack, n: int) -> bool {
        forall|i: int| 0 <= i < n ==> #[trigger] post.scopes@[i].namespaces == self.scopes@[i].namespaces
    }

    /// Stacks of as many scopes binding the same namespaces look namespaces
    /// up alike.
    pub proof fn lemma_namespaces_kept_lookup(self, post: ScopeStack)
        requires
            post.scopes@.len() == self.scopes@.len(),
            self.namespaces_kept(post, self.scopes@.len() as int),
        ensures
            forall|k: Seq<char>| #[trigger] post.spec_namespace(k) == self.spec_namespace(k),
    {
        assert forall|k: Seq<char>| #[trigger] post.spec_namespace(k) == self.spec_namespace(k) by {
            assert forall|j: int| 0 <= j < post.scopes@.len() implies (#[trigger] post.scopes@[j]).namespaces@.contains_key(k)
                == self.scopes@[j].namespaces@.contains_key(k) by {
                assert(post.scopes@[j].namespaces == self.scopes@[j].namespaces);
            }
            lemma_innermost_namespace_same(post.scopes@, self.scopes@, k);
            lemma_innermost_namespace(self.scopes@, k);
            let i = innermost_namespace(self.scopes@, k);
            if i >= 0 {
                assert(post.scopes@[i].namespaces == self.scopes@[i].namespaces);
            }
        }
    }

    /// Every scope here starts its registers, and belongs to the function,
    /// where and as it does in `post`.
    pub open spec fn bases_kept(self, post: ScopeStack) -> bool {
        &&& post.scopes@.len() == self.scopes@.len()
        &&& forall|i: int| 0 <= i < self.scopes@.len() ==> #[trigger] post.scopes@[i].reg_base == self.scopes@[i].reg_base
            && post.scopes@[i].proto_depth == self.scopes@[i].proto_depth
    }

    /// Each name resolves in `post` as it does here, but for having been
    /// moved since.
    pub open spec fn resolves_alike(self, post: ScopeStack) -> bool {
        forall|n: Seq<char>| #[trigger] post.spec_resolve(n) == self.spec_resolve(n) || (self.spec_resolve(n) matches Some(
            (l, d),
        ) && post.spec_resolve(n) == Some((Local { moved: true, ..l }, d)))
    }

    /// Stacks of as many scopes binding the same types look types up alike.
    pub proof fn lemma_types_kept_lookup(self, post: ScopeStack)
        requires
            post.scopes@.len() == self.scopes@.len(),
            self.types_kept(post, self.scopes@.len() as int),
        ensures
            forall|k: Seq<char>| #[trigger] post.spec_lookup_type(k) == self.spec_lookup_type(k),
    {
        assert forall|k: Seq<char>| #[trigger] post.spec_lookup_type(k) == self.spec_lookup_type(k) by {
            assert forall|j: int| 0 <= j < post.scopes@.len() implies (#[trigger] post.scopes@[j]).types@.contains_key(k)
                == self.scopes@[j].types@.contains_key(k) by {
                assert(post.scopes@[j].types == self.scopes@[j].types);
            }
            lemma_innermost_type_same(post.scopes@, self.scopes@, k);
            lemma_innermost_type(self.scopes@, k);
            let i = innermost_type(self.scopes@, k);
            if i >= 0 {
                assert(post.scopes@[i].types == self.scopes@[i].types);
            }
        }
    }

    pub fn new() -> (s: Self)
        ensures
            s.scopes@.len() == 0,
    {
        ScopeStack { scopes: Vec::new() }
    }

    /// Opens an empty scope.
    pub fn push(&mut self, reg_base: usize, proto_depth: usize)
        ensures
            final(self).scopes@.len() == old(self).scopes@.len() + 1,
            final(self).scopes@.drop_last() == old(self).scopes@,
            final(self).scopes@.last().locals@ == Map::<Seq<char>, Local>::empty(),
            final(self).scopes@.last().exports@ == Map::<Seq<char>, usize>::empty(),
            final(self).scopes@.last().exports.bindings().len() == 0,
            final(self).scopes@.last().namespaces.bindings().len() == 0,
            final(self).scopes@.last().types@ == Map::<Seq<char>, Type>::empty(),
            final(self).scopes@.last().namespaces@ == Map::<Seq<char>, Namespace>::empty(),
            final(self).scopes@.last().proto_depth == proto_depth,
            final(self).scopes@.last().reg_base == reg_base,
    {
        self.scopes.push(
            Scope {
                locals: NameMap::new(),
                exports: NameMap::new(),
                types: NameMap::new(),
                namespaces: NameMap::new(),
                proto_depth,
                reg_base,
            },
        );
        assert(self.scopes@.drop_last() =~= old(self).scopes@);
    }

    /// Closes the innermost scope and gives back the register base it was
    /// opened with.
    pub fn pop(&mut self) -> (base: usize)
        requires
            old(self).scopes@.len() > 0,
        ensures
            final(self).scopes@ == old(self).scopes@.drop_last(),
            base == old(self).scopes@.last().reg_base,
    {
        let s = self.scopes.pop().unwrap();
        s.reg_base
    }

    pub fn get_current_scope(&self) -> (s: &Scope)
        requires
            self.scopes@.len() > 0,
        ensures
            *s == self.scopes@.last(),
    {
        let i = self.scopes.len() - 1;
        &self.scopes[i]
    }

    pub fn get_current_scope_mut(&mut self) -> (s: &mut Scope)
        requires
            old(self).scopes@.len() > 0,
        ensures
            *s == old(self).scopes@.last(),
            final(self).scopes@ == old(self).scopes@.update(old(self).scopes@.len() - 1, *final(s)),
    {
        let i = self.scopes.len() - 1;
        &mut self.scopes[i]
    }

    /// Binds local `name` in the innermost scope (not moved).
    pub fn define_local(&mut self, name: String, reg: usize, ty: Type, backing: Option<ConstantValue>, mutable: bool)
        requires
            old(self).scopes@.len() > 0,
        ensures
            final(self).spec_resolve(name@) == Some(
                (Local { reg, ty, backing, mutable, moved: false }, old(self).scopes@.last().proto_depth),
            ),
            forall|other: Seq<char>| other != name@ ==> #[trigger] final(self).spec_resolve(other) == old(self).spec_resolve(other),
            forall|k: Seq<char>| #[trigger] final(self).spec_lookup_type(k) == old(self).spec_lookup_type(k),
            forall|k: Seq<char>| #[trigger] final(self).spec_namespace(k) == old(self).spec_namespace(k),
            final(self).scopes@.len() == old(self).scopes@.len(),
            final(self).scopes@.drop_last() == old(self).scopes@.drop_last(),
            final(self).scopes@.last().locals@ == old(self).scopes@.last().locals@.insert(
                name@,
                Local { reg, ty, backing, mutable, moved: false },
            ),
            final(self).scopes@.last().exports == old(self).scopes@.last().exports,
            final(self).scopes@.last().types == old(self).scopes@.last().types,
            final(self).scopes@.last().namespaces == old(self).scopes@.last().namespaces,
            final(self).scopes@.last().proto_depth == old(self).scopes@.last().proto_depth,
            final(self).scopes@.last().reg_base == old(self).scopes@.last().reg_base,
    {
        let ghost l = Local { reg, ty, backing, mutable, moved: false };
        let ghost n = name@;
        let s = self.get_current_scope_mut();
        s.locals.insert(name, Local { reg, ty, backing, mutable, moved: false });
        assert(self.scopes@.drop_last() =~= old(self).scopes@.drop_last());
        proof {
            lemma_bind_local(old(self).scopes@, self.scopes@, n, l);
            assert(self.scopes@.last() == self.scopes@[self.scopes@.len() - 1]);
            assert forall|other: Seq<char>| other != n implies #[trigger] self.spec_resolve(other) == old(self).spec_resolve(other) by {
                let i = innermost_local(old(self).scopes@, other);
                lemma_innermost_local(old(self).scopes@, other);
                if i >= 0 && i < self.scopes@.len() - 1 {
                    assert(self.scopes@[i] == self.scopes@.drop_last()[i]);
                    assert(old(self).scopes@[i] == old(self).scopes@.drop_last()[i]);
                }
            }
            assert forall|k: Seq<char>| #[trigger] self.spec_lookup_type(k) == old(self).spec_lookup_type(k) by {
                let i = innermost_type(old(self).scopes@, k);
                lemma_innermost_type(old(self).scopes@, k);
                if i >= 0 && i < self.scopes@.len() - 1 {
                    assert(self.scopes@[i] == self.scopes@.drop_last()[i]);
                    assert(old(self).scopes@[i] == old(self).scopes@.drop_last()[i]);
                }
            }
            assert(self.scopes@.last().namespaces == old(self).scopes@.last().namespaces);
            lemma_namespaces_same(*old(self), *self);
        }
    }

    /// Binds local `name` in the innermost scope and marks it exported.
    pub fn define_export(&mut self, name: String, reg: usize, ty: Type, backing: Option<ConstantValue>, mutable: bool)
        requires
            old(self).scopes@.len() > 0,
        ensures
            final(self).spec_resolve(name@) == Some(
                (Local { reg, ty, backing, mutable, moved: false }, old(self).scopes@.last().proto_depth),
            ),
            forall|other: Seq<char>| other != name@ ==> #[trigger] final(self).spec_resolve(other) == old(self).spec_resolve(other),
            forall|k: Seq<char>| #[trigger] final(self).spec_lookup_type(k) == old(self).spec_lookup_type(k),
            forall|k: Seq<char>| #[trigger] final(self).spec_namespace(k) == old(self).spec_namespace(k),
            final(self).scopes@.len() == old(self).scopes@.len(),
            final(self).scopes@.drop_last() == old(self).scopes@.drop_last(),
            final(self).scopes@.last().locals@ == old(self).scopes@.last().locals@.insert(
                name@,
                Local { reg, ty, backing, mutable, moved: false },
            ),
            final(self).scopes@.last().exports@ == old(self).scopes@.last().exports@.insert(name@, reg),
            final(self).scopes@.last().types == old(self).scopes@.last().types,
            final(self).scopes@.last().namespaces == old(self).scopes@.last().namespaces,
            final(self).scopes@.last().proto_depth == old(self).scopes@.last().proto_depth,
            final(self).scopes@.last().reg_base == old(self).scopes@.last().reg_base,
    {
        let ghost l = Local { reg, ty, backing, mutable, moved: false };
        let ghost n = name@;
        let scope = self.get_current_scope_mut();
        scope.exports.insert(name.clone(), reg);
        scope.locals.insert(name, Local { reg, ty, backing, mutable, moved: false });
        assert(self.scopes@.drop_last() =~= old(self).scopes@.drop_last());
        proof {
            assert(self.scopes@.last().namespaces == old(self).scopes@.last().namespaces);
            lemma_namespaces_same(*old(self), *self);
            lemma_bind_local(old(self).scopes@, self.scopes@, n, l);
            assert(self.scopes@.last() == self.scopes@[self.scopes@.len() - 1]);
            assert forall|other: Seq<char>| other != n implies #[trigger] self.spec_resolve(other) == old(self).spec_resolve(other) by {
                let i = innermost_local(old(self).scopes@, other);
                lemma_innermost_local(old(self).scopes@, other);
                if i >= 0 && i < self.scopes@.len() - 1 {
                    assert(self.scopes@[i] == self.scopes@.drop_last()[i]);
                    assert(old(self).scopes@[i] == old(self).scopes@.drop_last()[i]);
                }
            }
            assert forall|k: Seq<char>| #[trigger] self.spec_lookup_type(k) == old(self).spec_lookup_type(k) by {
                let i = innermost_type(old(self).scopes@, k);
                lemma_innermost_type(old(self).scopes@, k);
                if i >= 0 && i < self.scopes@.len() - 1 {
                    assert(self.scopes@[i] == self.scopes@.drop_last()[i]);
                    assert(old(self).scopes@[i] == old(self).scopes@.drop_last()[i]);
                }
            }
        }
    }

    /// Binds type `name` in the innermost scope.
    pub fn define_type(&mut self, name: String, ty: Type)
        requires
            old(self).scopes@.len() > 0,
        ensures
            final(self).spec_lookup_type(name@) == Some(ty),
            forall|other: Seq<char>| other != name@ ==> #[trigger] final(self).spec_lookup_type(other) == old(self).spec_lookup_type(other),
            forall|k: Seq<char>| #[trigger] final(self).spec_resolve(k) == old(self).spec_resolve(k),
            final(self).scopes@.len() == old(self).scopes@.len(),
            final(self).scopes@.drop_last() == old(self).scopes@.drop_last(),
            final(self).scopes@.last().types@ == old(self).scopes@.last().types@.insert(name@, ty),
            final(self).scopes@.last().locals == old(self).scopes@.last().locals,
            final(self).scopes@.last().exports == old(self).scopes@.last().exports,
            final(self).scopes@.last().namespaces == old(self).scopes@.last().namespaces,
            final(self).scopes@.last().proto_depth == old(self).scopes@.last().proto_depth,
            final(self).scopes@.last().reg_base == old(self).scopes@.last().reg_base,
    {
        let ghost n = name@;
        let ghost t = ty;
        let s = self.get_current_scope_mut();
        s.types.insert(name, ty);
        assert(self.scopes@.drop_last() =~= old(self).scopes@.drop_last());
        proof {
            lemma_bind_type(old(self).scopes@, self.scopes@, n, t);
            assert(self.scopes@.last() == self.scopes@[self.scopes@.len() - 1]);
            assert forall|other: Seq<char>| other != n implies #[trigger] self.spec_lookup_type(other) == old(self).spec_lookup_type(other) by {
                let i = innermost_type(old(self).scopes@, other);
                lemma_innermost_type(old(self).scopes@, other);
                if i >= 0 && i < self.scopes@.len() - 1 {
                    assert(self.scopes@[i] == self.scopes@.drop_last()[i]);
                    assert(old(self).scopes@[i] == old(self).scopes@.drop_last()[i]);
                }
            }
            assert forall|k: Seq<char>| #[trigger] self.spec_resolve(k) == old(self).spec_resolve(k) by {
                let i = innermost_local(old(self).scopes@, k);
                lemma_innermost_local(old(self).scopes@, k);
                if i >= 0 && i < self.scopes@.len() - 1 {
                    assert(self.scopes@[i] == self.scopes@.drop_last()[i]);
                    assert(old(self).scopes@[i] == old(self).scopes@.drop_last()[i]);
                }
            }
        }
    }

    /// Binds namespace `name` in the innermost scope.
    pub fn define_namespace(&mut self, name: String, ns: Namespace)
        requires
            old(self).scopes@.len() > 0,
        ensures
            final(self).spec_namespace(name@) == Some(ns),
            forall|other: Seq<char>| other != name@ ==> #[trigger] final(self).spec_namespace(other) == old(self).spec_namespace(other),
            final(self).scopes@.len() == old(self).scopes@.len(),
            final(self).scopes@.drop_last() == old(self).scopes@.drop_last(),
            final(self).scopes@.last().namespaces@ == old(self).scopes@.last().namespaces@.insert(name@, ns),
            final(self).scopes@.last().locals == old(self).scopes@.last().locals,
            final(self).scopes@.last().exports == old(self).scopes@.last().exports,
            final(self).scopes@.last().types == old(self).scopes@.last().types,
            final(self).scopes@.last().proto_depth == old(self).scopes@.last().proto_depth,
            final(self).scopes@.last().reg_base == old(self).scopes@.last().reg_base,
    {
        let ghost n = name@;
        let ghost v = ns;
        let s = self.get_current_scope_mut();
        s.namespaces.insert(name, ns);
        assert(self.scopes@.drop_last() =~= old(self).scopes@.drop_last());
        proof {
            lemma_bind_namespace(old(self).scopes@, self.scopes@, n, v);
            assert(self.scopes@.last() == self.scopes@[self.scopes@.len() - 1]);
            assert forall|other: Seq<char>| other != n implies #[trigger] self.spec_namespace(other) == old(self).spec_namespace(other) by {
                let i = innermost_namespace(old(self).scopes@, other);
                lemma_innermost_namespace(old(self).scopes@, other);
                if i >= 0 && i < self.scopes@.len() - 1 {
                    assert(self.scopes@[i] == self.scopes@.drop_last()[i]);
                    assert(old(self).scopes@[i] == old(self).scopes@.drop_last()[i]);
                }
            }
        }
    }

    /// The type bound to `name` in the innermost scope that binds it.
    pub fn lookup_type(&self, name: &String) -> (r: Option<&Type>)
        ensures
            match r {
                Some(t) => self.spec_lookup_type(name@) == Some(*t),
                None => self.spec_lookup_type(name@) is None,
            },
    {
        let mut i = self.scopes.len();
        proof {
            lemma_innermost_type(self.scopes@, name@);
        }
        while i > 0
            invariant
                i <= self.scopes@.len(),
                innermost_type(self.scopes@, name@) < i,
            decreases i,
        {
            if let Some(t) = self.scopes[i - 1].types.get(name) {
                proof {
                    lemma_innermost_type(self.scopes@, name@);
                }
                return Some(t);
            }
            proof {
                lemma_innermost_type(self.scopes@, name@);
            }
            i = i - 1;
        }
        None
    }

    /// Finds `name` from the innermost scope out; it is reported `Local` when
    /// its scope belongs to the function at `current_proto_depth`.
    pub fn resolve_local(&self, name: &String, current_proto_depth: usize) -> (r: Option<LocalResolution>)
        ensures
            match self.spec_resolve(name@) {
                Some((l, depth)) => r is Some && r->0.describes(l, depth == current_proto_depth),
                None => r is None,
            },
    {
        let mut i = self.scopes.len();
        proof {
            lemma_innermost_local(self.scopes@, name@);
        }
        while i > 0
            invariant
                i <= self.scopes@.len(),
                innermost_local(self.scopes@, name@) < i,
            decreases i,
        {
            if let Some(local) = self.scopes[i - 1].locals.get(name) {
                proof {
                    lemma_innermost_local(self.scopes@, name@);
                }
                let scope = &self.scopes[i - 1];
                let res = if scope.proto_depth == current_proto_depth {
                    LocalResolution::Local {
                        reg: local.reg,
                        ty: local.ty.copy(),
                        backing: copy_backing(&local.backing),
                        mutable: local.mutable,
                        moved: local.moved,
                    }
                } else {
                    LocalResolution::OuterProto {
                        reg: local.reg,
                        ty: local.ty.copy(),
                        backing: copy_backing(&local.backing),
                        mutable: local.mutable,
                        moved: local.moved,
                    }
                };
                return Some(res);
            }
            proof {
                lemma_innermost_local(self.scopes@, name@);
            }
            i = i - 1;
        }
        None
    }

    /// Marks the innermost binding of `name` as moved.
    pub fn mark_moved(&mut self, name: &String)
        ensures
            final(self).scopes@.len() == old(self).scopes@.len(),
            match old(self).spec_resolve(name@) {
                Some((l, depth)) => final(self).spec_resolve(name@) == Some(
                    (Local { moved: true, ..l }, depth),
                ),
                None => final(self).scopes@ == old(self).scopes@,
            },
            forall|other: Seq<char>| other != name@ ==> #[trigger] final(self).spec_resolve(other) == old(self).spec_resolve(other),
            forall|k: Seq<char>| #[trigger] final(self).spec_lookup_type(k) == old(self).spec_lookup_type(k),
            old(self).types_kept(*final(self), old(self).scopes@.len() as int),
            old(self).namespaces_kept(*final(self), old(self).scopes@.len() as int),
            old(self).resolves_alike(*final(self)),
            old(self).bases_kept(*final(self)),
            forall|k: int| 0 <= k < old(self).scopes@.len() ==> {
                &&& (#[trigger] final(self).scopes@[k]).exports == old(self).scopes@[k].exports
                &&& final(self).scopes@[k].namespaces == old(self).scopes@[k].namespaces
                &&& final(self).scopes@[k].types == old(self).scopes@[k].types
                &&& final(self).scopes@[k].proto_depth == old(self).scopes@[k].proto_depth
                &&& k != innermost_local(old(self).scopes@, name@) ==> final(self).scopes@[k] == old(self).scopes@[k]
            },
            innermost_local(old(self).scopes@, name@) >= 0 ==> final(self).scopes@[innermost_local(old(self).scopes@, name@)].locals@
                == old(self).scopes@[innermost_local(old(self).scopes@, name@)].locals@.insert(
                name@,
                Local { moved: true, ..old(self).scopes@[innermost_local(old(self).scopes@, name@)].locals@[name@] },
            ),
    {
        let mut i = self.scopes.len();
        proof {
            lemma_innermost_local(self.scopes@, name@);
        }
        while i > 0
            invariant
                self.scopes@ == old(self).scopes@,
                i <= self.scopes@.len(),
                innermost_local(self.scopes@, name@) < i,
            decreases i,
        {
            let pos = self.scopes[i - 1].locals.position(name);
            if let Some(p) = pos {
                proof {
                    lemma_innermost_local(self.scopes@, name@);
                }
                let ghost old_scopes = self.scopes@;
                let prev = self.scopes[i - 1].locals.replace_value_at(p, Local {
                    reg: 0, ty: Type::Unknown, backing: None, mutable: false, moved: false });
                proof {
                    let b = old_scopes[i - 1].locals.bindings();
                    crate::name_map::lemma_last_index_of_bounds(b, name@);
                    assert(prev == old_scopes[i - 1].locals@[name@]);
                    assert(b[p as int].0@ == name@);
                }
                let ghost mid_scopes = self.scopes@;
                let updated = Local {
                    reg: prev.reg,
                    ty: prev.ty,
                    backing: prev.backing,
                    mutable: prev.mutable,
                    moved: true,
                };
                self.scopes[i - 1].locals.replace_value_at(p, updated);
                proof {
                    let ns = self.scopes@;
                    let j = (i - 1) as int;
                    assert(mid_scopes[j].locals.bindings()[p as int].0@ == name@);
                    assert(last_index_of(mid_scopes[j].locals.bindings(), name@) == p);
                    assert forall|k: int| 0 <= k < ns.len() && k != j implies ns[k] == old_scopes[k] by {}
                    assert(ns[j].locals@ == old_scopes[j].locals@.insert(name@, Local { moved: true, ..old_scopes[j].locals@[name@] }));
                    assert forall|key: Seq<char>| #[trigger] innermost_local(ns, key) == innermost_local(old_scopes, key) by {
                        assert forall|k: int| 0 <= k < ns.len() implies (#[trigger] ns[k]).locals@.contains_key(key)
                            == old_scopes[k].locals@.contains_key(key) by {
                            if k == j {
                                assert(old_scopes[j].locals@.contains_key(name@));
                            }
                        }
                        lemma_innermost_local_same(ns, old_scopes, key);
                    }
                    assert forall|key: Seq<char>| #[trigger] innermost_type(ns, key) == innermost_type(old_scopes, key) by {
                        lemma_innermost_type_same(ns, old_scopes, key);
                    }
                    assert forall|other: Seq<char>| other != name@ implies #[trigger] self.spec_resolve(other) == old(self).spec_resolve(other) by {
                        lemma_innermost_local(ns, other);
                    }
                    assert forall|key: Seq<char>| #[trigger] self.spec_lookup_type(key) == old(self).spec_lookup_type(key) by {
                        lemma_innermost_type(ns, key);
                    }
                }
                return;
            }
            proof {
                lemma_innermost_local(self.scopes@, name@);
            }
            i = i - 1;
        }
    }

}

pub proof fn lemma_innermost_local_same(s1: Seq<Scope>, s2: Seq<Scope>, name: Seq<char>)
    requires
        s1.len() == s2.len(),
        forall|j: int| 0 <= j < s1.len() ==> (#[trigger] s1[j]).locals@.contains_key(name) == s2[j].locals@.contains_key(name),
    ensures
        innermost_local(s1, name) == innermost_local(s2, name),
    decreases s1.len(),
{
    if s1.len() > 0 {
        assert(s1.last() == s1[s1.len() - 1]);
        assert(s2.last() == s2[s2.len() - 1]);
        assert forall|j: int| 0 <= j < s1.drop_last().len() implies (#[trigger] s1.drop_last()[j]).locals@.contains_key(name)
            == s2.drop_last()[j].locals@.contains_key(name) by {
            assert(s1.drop_last()[j] == s1[j]);
            assert(s2.drop_last()[j] == s2[j]);
        }
        lemma_innermost_local_same(s1.drop_last(), s2.drop_last(), name);
    }
}

pub proof fn lemma_innermost_type_same(s1: Seq<Scope>, s2: Seq<Scope>, name: Seq<char>)
    requires
        s1.len() == s2.len(),
        forall|j: int| 0 <= j < s1.len() ==> (#[trigger] s1[j]).types@.contains_key(name) == s2[j].types@.contains_key(name),
    ensures
        innermost_type(s1, name) == innermost_type(s2, name),
    decreases s1.len(),
{
    if s1.len() > 0 {
        assert(s1.last() == s1[s1.len() - 1]);
        assert(s2.last() == s2[s2.len() - 1]);
        assert forall|j: int| 0 <= j < s1.drop_last().len() implies (#[trigger] s1.drop_last()[j]).types@.contains_key(name)
            == s2.drop_last()[j].types@.contains_key(name) by {
            assert(s1.drop_last()[j] == s1[j]);
            assert(s2.drop_last()[j] == s2[j]);
        }
        lemma_innermost_type_same(s1.drop_last(), s2.drop_last(), name);
    }
}

pub proof fn lemma_innermost_namespace_same(s1: Seq<Scope>, s2: Seq<Scope>, name: Seq<char>)
    requires
        s1.len() == s2.len(),
        forall|j: int| 0 <= j < s1.len() ==> (#[trigger] s1[j]).namespaces@.contains_key(name) == s2[j].namespaces@.contains_key(name),
    ensures
        innermost_namespace(s1, name) == innermost_namespace(s2, name),
    decreases s1.len(),
{
    if s1.len() > 0 {
        assert(s1.last() == s1[s1.len() - 1]);
        assert(s2.last() == s2[s2.len() - 1]);
        assert forall|j: int| 0 <= j < s1.drop_last().len() implies (#[trigger] s1.drop_last()[j]).namespaces@.contains_key(name)
            == s2.drop_last()[j].namespaces@.contains_key(name) by {
            assert(s1.drop_last()[j] == s1[j]);
            assert(s2.drop_last()[j] == s2[j]);
        }
        lemma_innermost_namespace_same(s1.drop_last(), s2.drop_last(), name);
    }
}

/// Binding a local in the innermost scope makes `name` resolve to it there,
/// and changes neither the resolution of any other name nor any type.
pub proof fn lemma_bind_local(s1: Seq<Scope>, s2: Seq<Scope>, name: Seq<char>, l: Local)
    requires
        s1.len() > 0,
        s2.len() == s1.len(),
        s2.drop_last() == s1.drop_last(),
        s2.last().locals@ == s1.last().locals@.insert(name, l),
        s2.last().types == s1.last().types,
        s2.last().proto_depth == s1.last().proto_depth,
    ensures
        innermost_local(s2, name) == s2.len() - 1,
        forall|other: Seq<char>| other != name ==> #[trigger] innermost_local(s2, other) == innermost_local(s1, other),
        forall|k: Seq<char>| #[trigger] innermost_type(s2, k) == innermost_type(s1, k),
{
    assert(s2.last() == s2[s2.len() - 1]);
    assert forall|other: Seq<char>| other != name implies #[trigger] innermost_local(s2, other) == innermost_local(s1, other) by {
        assert forall|j: int| 0 <= j < s2.len() implies (#[trigger] s2[j]).locals@.contains_key(other) == s1[j].locals@.contains_key(other) by {
            if j < s2.len() - 1 {
                assert(s2[j] == s2.drop_last()[j]);
                assert(s1[j] == s1.drop_last()[j]);
            } else {
                assert(s1[j] == s1.last());
            }
        }
        lemma_innermost_local_same(s2, s1, other);
    }
    assert forall|k: Seq<char>| #[trigger] innermost_type(s2, k) == innermost_type(s1, k) by {
        assert forall|j: int| 0 <= j < s2.len() implies (#[trigger] s2[j]).types@.contains_key(k) == s1[j].types@.contains_key(k) by {
            if j < s2.len() - 1 {
                assert(s2[j] == s2.drop_last()[j]);
                assert(s1[j] == s1.drop_last()[j]);
            } else {
                assert(s1[j] == s1.last());
            }
        }
        lemma_innermost_type_same(s2, s1, k);
    }
}

/// Binding a type in the innermost scope makes `name` stand for it, and
/// changes neither any other type nor any local.
pub proof fn lemma_bind_type(s1: Seq<Scope>, s2: Seq<Scope>, name: Seq<char>, t: Type)
    requires
        s1.len() > 0,
        s2.len() == s1.len(),
        s2.drop_last() == s1.drop_last(),
        s2.last().types@ == s1.last().types@.insert(name, t),
        s2.last().locals == s1.last().locals,
    ensures
        innermost_type(s2, name) == s2.len() - 1,
        forall|other: Seq<char>| other != name ==> #[trigger] innermost_type(s2, other) == innermost_type(s1, other),
        forall|k: Seq<char>| #[trigger] innermost_local(s2, k) == innermost_local(s1, k),
{
    assert(s2.last() == s2[s2.len() - 1]);
    assert forall|other: Seq<char>| other != name implies #[trigger] innermost_type(s2, other) == innermost_type(s1, other) by {
        assert forall|j: int| 0 <= j < s2.len() implies (#[trigger] s2[j]).types@.contains_key(other) == s1[j].types@.contains_key(other) by {
            if j < s2.len() - 1 {
                assert(s2[j] == s2.drop_last()[j]);
                assert(s1[j] == s1.drop_last()[j]);
            } else {
                assert(s1[j] == s1.last());
            }
        }
        lemma_innermost_type_same(s2, s1, other);
    }
    assert forall|k: Seq<char>| #[trigger] innermost_local(s2, k) == innermost_local(s1, k) by {
        assert forall|j: int| 0 <= j < s2.len() implies (#[trigger] s2[j]).locals@.contains_key(k) == s1[j].locals@.contains_key(k) by {
            if j < s2.len() - 1 {
                assert(s2[j] == s2.drop_last()[j]);
                assert(s1[j] == s1.drop_last()[j]);
            } else {
                assert(s1[j] == s1.last());
            }
        }
        lemma_innermost_local_same(s2, s1, k);
    }
}

/// Binding a namespace in the innermost scope makes `name` stand for it, and
/// changes no other namespace.
pub proof fn lemma_bind_namespace(s1: Seq<Scope>, s2: Seq<Scope>, name: Seq<char>, ns: Namespace)
    requires
        s1.len() > 0,
        s2.len() == s1.len(),
        s2.drop_last() == s1.drop_last(),
        s2.last().namespaces@ == s1.last().namespaces@.insert(name, ns),
    ensures
        innermost_namespace(s2, name) == s2.len() - 1,
        forall|other: Seq<char>| other != name ==> #[trigger] innermost_namespace(s2, other) == innermost_namespace(s1, other),
{
    assert(s2.last() == s2[s2.len() - 1]);
    assert forall|other: Seq<char>| other != name implies #[trigger] innermost_namespace(s2, other) == innermost_namespace(s1, other) by {
        assert forall|j: int| 0 <= j < s2.len() implies (#[trigger] s2[j]).namespaces@.contains_key(other) == s1[j].namespaces@.contains_key(other) by {
            if j < s2.len() - 1 {
                assert(s2[j] == s2.drop_last()[j]);
                assert(s1[j] == s1.drop_last()[j]);
            } else {
                assert(s1[j] == s1.last());
            }
        }
        lemma_innermost_namespace_same(s2, s1, other);
    }
}

/// Binding in the innermost scope keeps the types of the scopes below it,
/// and of all scopes when the innermost one binds the same types.
pub proof fn lemma_kept_after_bind(s1: ScopeStack, s2: ScopeStack)
    requires
        s1.scopes@.len() > 0,
        s2.scopes@.len() == s1.scopes@.len(),
        s2.scopes@.drop_last() == s1.scopes@.drop_last(),
    ensures
        s1.types_kept(s2, s1.scopes@.len() - 1),
        s2.scopes@.last().types == s1.scopes@.last().types ==> s1.types_kept(s2, s1.scopes@.len() as int),
        s1.namespaces_kept(s2, s1.scopes@.len() - 1),
        s2.scopes@.last().namespaces == s1.scopes@.last().namespaces ==> s1.namespaces_kept(s2, s1.scopes@.len() as int),
        s2.scopes@.last().reg_base == s1.scopes@.last().reg_base && s2.scopes@.last().proto_depth
            == s1.scopes@.last().proto_depth ==> s1.bases_kept(s2),
{
    if s2.scopes@.last().reg_base == s1.scopes@.last().reg_base && s2.scopes@.last().proto_depth == s1.scopes@.last().proto_depth {
        assert forall|i: int| 0 <= i < s1.scopes@.len() implies #[trigger] s2.scopes@[i].reg_base == s1.scopes@[i].reg_base
            && s2.scopes@[i].proto_depth == s1.scopes@[i].proto_depth by {
            if i < s1.scopes@.len() - 1 {
                assert(s2.scopes@[i] == s2.scopes@.drop_last()[i]);
                assert(s1.scopes@[i] == s1.scopes@.drop_last()[i]);
            }
        }
    }
    assert forall|i: int| 0 <= i < s1.scopes@.len() - 1 implies #[trigger] s2.scopes@[i].types == s1.scopes@[i].types by {
        assert(s2.scopes@[i] == s2.scopes@.drop_last()[i]);
        assert(s1.scopes@[i] == s1.scopes@.drop_last()[i]);
    }
    assert forall|i: int| 0 <= i < s1.scopes@.len() - 1 implies #[trigger] s2.scopes@[i].namespaces == s1.scopes@[i].namespaces by {
        assert(s2.scopes@[i] == s2.scopes@.drop_last()[i]);
        assert(s1.scopes@[i] == s1.scopes@.drop_last()[i]);
    }
    if s2.scopes@.last().namespaces == s1.scopes@.last().namespaces {
        assert forall|i: int| 0 <= i < s1.scopes@.len() implies #[trigger] s2.scopes@[i].namespaces == s1.scopes@[i].namespaces by {
            if i < s1.scopes@.len() - 1 {
                assert(s2.scopes@[i] == s2.scopes@.drop_last()[i]);
                assert(s1.scopes@[i] == s1.scopes@.drop_last()[i]);
            }
        }
    }
    if s2.scopes@.last().types == s1.scopes@.last().types {
        assert forall|i: int| 0 <= i < s1.scopes@.len() implies #[trigger] s2.scopes@[i].types == s1.scopes@[i].types by {
            if i < s1.scopes@.len() - 1 {
                assert(s2.scopes@[i] == s2.scopes@.drop_last()[i]);
                assert(s1.scopes@[i] == s1.scopes@.drop_last()[i]);
            }
        }
    }
}

pub proof fn lemma_kept_trans(a: ScopeStack, b: ScopeStack, c: ScopeStack, n: int)
    requires
        a.types_kept(b, n),
        b.types_kept(c, n),
    ensures
        a.types_kept(c, n),
        a.namespaces_kept(b, n) && b.namespaces_kept(c, n) ==> a.namespaces_kept(c, n),
{
    if a.namespaces_kept(b, n) && b.namespaces_kept(c, n) {
        assert forall|i: int| 0 <= i < n implies #[trigger] c.scopes@[i].namespaces == a.scopes@[i].namespaces by {
            assert(b.scopes@[i].namespaces == a.scopes@[i].namespaces);
        }
    }
    assert forall|i: int| 0 <= i < n implies #[trigger] c.scopes@[i].types == a.scopes@[i].types by {
        assert(b.scopes@[i].types == a.scopes@[i].types);
    }
}

/// Stacks that differ at most in the innermost scope, and not in its
/// namespaces, look namespaces up alike.
pub proof fn lemma_namespaces_same(s1: ScopeStack, s2: ScopeStack)
    requires
        s1.scopes@.len() > 0,
        s2.scopes@.len() == s1.scopes@.len(),
        s2.scopes@.drop_last() == s1.scopes@.drop_last(),
        s2.scopes@.last().namespaces == s1.scopes@.last().namespaces,
    ensures
        forall|k: Seq<char>| #[trigger] s2.spec_namespace(k) == s1.spec_namespace(k),
{
    lemma_kept_after_bind(s1, s2);
    s1.lemma_namespaces_kept_lookup(s2);
}

/// Keeping register bases and depths is transitive.
pub proof fn lemma_bases_trans(a: ScopeStack, b: ScopeStack, c: ScopeStack)
    requires
        a.bases_kept(b),
        b.bases_kept(c),
    ensures
        a.bases_kept(c),
{
    assert forall|i: int| 0 <= i < a.scopes@.len() implies #[trigger] c.scopes@[i].reg_base == a.scopes@[i].reg_base
        && c.scopes@[i].proto_depth == a.scopes@[i].proto_depth by {
        assert(b.scopes@[i].reg_base == a.scopes@[i].reg_base);
        assert(c.scopes@[i].reg_base == b.scopes@[i].reg_base);
    }
}

/// Opening a scope, keeping the types of the scopes below it, and closing
/// it again keeps the types of every scope there was.
pub proof fn lemma_kept_push_pop(a: ScopeStack, b: ScopeStack, c: ScopeStack, d: ScopeStack)
    requires
        b.scopes@.len() == a.scopes@.len() + 1,
        b.scopes@.drop_last() == a.scopes@,
        c.scopes@.len() == b.scopes@.len(),
        b.types_kept(c, b.scopes@.len() - 1),
        b.bases_kept(c),
        d.scopes@ == c.scopes@.drop_last(),
    ensures
        d.scopes@.len() == a.scopes@.len(),
        a.types_kept(d, a.scopes@.len() as int),
        a.bases_kept(d),
        d.scopes@.len() < c.scopes@.len() && c.scopes@.last().reg_base == b.scopes@.last().reg_base,
        b.namespaces_kept(c, b.scopes@.len() - 1) ==> a.namespaces_kept(d, a.scopes@.len() as int),
{
    if b.namespaces_kept(c, b.scopes@.len() - 1) {
        assert forall|i: int| 0 <= i < a.scopes@.len() implies #[trigger] d.scopes@[i].namespaces == a.scopes@[i].namespaces by {
            assert(d.scopes@[i] == c.scopes@[i]);
            assert(b.scopes@[i] == a.scopes@[i]);
            assert(c.scopes@[i].namespaces == b.scopes@[i].namespaces);
        }
    }
    assert forall|i: int| 0 <= i < a.scopes@.len() implies #[trigger] d.scopes@[i].reg_base == a.scopes@[i].reg_base
        && d.scopes@[i].proto_depth == a.scopes@[i].proto_depth by {
        assert(d.scopes@[i] == c.scopes@[i]);
        assert(b.scopes@[i] == a.scopes@[i]);
        assert(c.scopes@[i].reg_base == b.scopes@[i].reg_base);
    }
    assert(c.scopes@.last() == c.scopes@[c.scopes@.len() - 1]);
    assert(b.scopes@.last() == b.scopes@[b.scopes@.len() - 1]);
    assert forall|i: int| 0 <= i < a.scopes@.len() implies #[trigger] d.scopes@[i].types == a.scopes@[i].types by {
        assert(d.scopes@[i] == c.scopes@[i]);
        assert(b.scopes@[i] == a.scopes@[i]);
        assert(c.scopes@[i].types == b.scopes@[i].types);
    }
}

pub proof fn lemma_resolves_alike_trans(a: ScopeStack, b: ScopeStack, c: ScopeStack)
    requires
        a.resolves_alike(b),
        b.resolves_alike(c),
    ensures
        a.resolves_alike(c),
{
    assert forall|n: Seq<char>| #[trigger] c.spec_resolve(n) == a.spec_resolve(n) || (a.spec_resolve(n) matches Some(
        (l, d),
    ) && c.spec_resolve(n) == Some((Local { moved: true, ..l }, d))) by {
        assert(b.spec_resolve(n) == a.spec_resolve(n) || (a.spec_resolve(n) matches Some((l, d)) && b.spec_resolve(n)
            == Some((Local { moved: true, ..l }, d))));
        assert(c.spec_resolve(n) == b.spec_resolve(n) || (b.spec_resolve(n) matches Some((l, d)) && c.spec_resolve(n)
            == Some((Local { moved: true, ..l }, d))));
    }
}

} // verus!
