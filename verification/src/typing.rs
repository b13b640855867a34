use vstd::prelude::*;
use crate::compiler::{CompileError, CompilingCtx, LucyCompiler};
use crate::scope::LocalResolution;
use crate::syntax::{AstNode, AstNodeV, TypeNode, TypeNodeV, view_tnodes};
use crate::ty::{
    ClassType, Type, TypeV, first_field_index, spec_display, view_opt_type, view_types, lemma_view_types,
};

verus! {

/// The built-in type named `name`.
pub open spec fn spec_builtin(name: Seq<char>) -> Option<TypeV> {
    if name == "u8"@ {
        Some(TypeV::U8)
    } else if name == "i8"@ {
        Some(TypeV::I8)
    } else if name == "u16"@ {
        Some(TypeV::U16)
    } else if name == "i16"@ {
        Some(TypeV::I16)
    } else if name == "u32"@ {
        Some(TypeV::U32)
    } else if name == "i32"@ {
        Some(TypeV::I32)
    } else if name == "u64"@ {
        Some(TypeV::U64)
    } else if name == "i64"@ {
        Some(TypeV::I64)
    } else if name == "usize"@ {
        Some(TypeV::USize)
    } else if name == "bool"@ {
        Some(TypeV::Bool)
    } else if name == "string"@ {
        Some(TypeV::String)
    } else if name == "empty"@ {
        Some(TypeV::Empty)
    } else {
        None
    }
}

/// Whether `s` spells `lit`.
pub fn name_is(s: &String, lit: &str) -> (b: bool)
    ensures
        b == (s@ == lit@),
{
    let t = String::from_str(lit);
    *s == t
}

/// The type a qualified type stands for once its qualifiers are checked, or
/// `None` when some level is both borrowed and moved.
pub open spec fn spec_resolve_type(t: TypeV) -> Option<TypeV>
    decreases t,
{
    match t {
        TypeV::Qualified { inner, borrowed, moved, .. } => if borrowed && moved {
            None
        } else {
            spec_resolve_type(*inner)
        },
        other => Some(other),
    }
}

/// Whether a value of type `rhs` may be stored where `lhs` is expected.
pub open spec fn spec_assignable(lhs: TypeV, rhs: TypeV) -> bool {
    lhs is Unknown || rhs is Unknown || Type::spec_inner(lhs) == Type::spec_inner(rhs)
}

/// `context: expected 'lhs', got 'rhs'`.
pub open spec fn assignable_message(context: Seq<char>, lhs: TypeV, rhs: TypeV) -> Seq<char> {
    context + ": expected '"@ + spec_display(lhs) + "', got '"@ + spec_display(rhs) + "'"@
}

/// `context: 'ty' is not a numeric type`.
pub open spec fn numeric_message(context: Seq<char>, ty: TypeV) -> Seq<char> {
    context + ": '"@ + spec_display(ty) + "' is not a numeric type"@
}

impl LucyCompiler {
    /// The type a type annotation stands for: a built-in type, a type bound
    /// in scope, or else a type variable or generic type of that name.
    pub open spec fn spec_compile_type(&self, t: TypeNodeV) -> TypeV
        decreases t,
    {
        match t {
            TypeNodeV::Inferred => TypeV::Unknown,
            TypeNodeV::ArrayType { elem_type } => TypeV::Array(Box::new(self.spec_compile_type(*elem_type))),
            TypeNodeV::Qualified { inner, mutable, borrowed, moved } => TypeV::Qualified {
                inner: Box::new(self.spec_compile_type(*inner)),
                mutable,
                borrowed,
                moved,
            },
            TypeNodeV::NominalType { name, generics } => match spec_builtin(name) {
                Some(b) => b,
                None => match self.scopes.spec_lookup_type(name) {
                    Some(found) => found@,
                    None => if generics.len() == 0 {
                        TypeV::TypeVar(name)
                    } else {
                        TypeV::Generic { name, args: self.spec_compile_types(generics) }
                    },
                },
            },
        }
    }

    pub open spec fn spec_compile_types(&self, s: Seq<TypeNodeV>) -> Seq<TypeV>
        decreases s,
    {
        if s.len() == 0 {
            Seq::empty()
        } else {
            self.spec_compile_types(s.drop_last()).push(self.spec_compile_type(s.last()))
        }
    }

    /// The member `name` of the class `id` as the type an access to it has:
    /// a field's type, a method's function type, or `Unknown`; `None` when
    /// there is no class `id`.
    pub open spec fn spec_member_type(&self, id: crate::ty::TypeId, name: Seq<char>, fields_too: bool) -> Option<TypeV> {
        if id.0 < self.type_arena.classes@.len() {
            let c = self.type_arena.classes@[id.0 as int];
            let fi = first_field_index(c.fields@, name);
            if fields_too && fi >= 0 {
                Some(c.fields@[fi].1@)
            } else if c.methods@.contains_key(name) {
                Some(TypeV::Function(Box::new(c.methods@[name].2@)))
            } else {
                Some(TypeV::Unknown)
            }
        } else {
            None
        }
    }

    /// The type bound to `name` in scope, or `Unknown`.
    pub open spec fn spec_type_or_unknown(&self, name: Seq<char>) -> TypeV {
        match self.scopes.spec_lookup_type(name) {
            Some(t) => t@,
            None => TypeV::Unknown,
        }
    }

    /// The static type of an expression, inside class `cls` if any; `None`
    /// when it cannot be typed (`Self` outside a class, or a class that
    /// does not exist).
    pub open spec fn spec_infer(&self, e: AstNodeV, cls: Option<Seq<char>>) -> Option<TypeV>
        decreases e,
    {
        match e {
            AstNodeV::IntLiteral(_) => Some(TypeV::I32),
            AstNodeV::FloatLiteral(_) => Some(TypeV::F64),
            AstNodeV::StringLiteral(_) => Some(TypeV::String),
            AstNodeV::SelfExpr => Some(
                match cls {
                    Some(n) => self.spec_type_or_unknown(n),
                    None => TypeV::Unknown,
                },
            ),
            AstNodeV::Identifier(name) => Some(
                match self.scopes.spec_resolve(name) {
                    Some(p) => p.0.ty@,
                    None => TypeV::Unknown,
                },
            ),
            AstNodeV::Borrowed(inner) => match self.spec_infer(*inner, cls) {
                Some(t) => Some(TypeV::Qualified { inner: Box::new(t), mutable: false, borrowed: true, moved: false }),
                None => None,
            },
            AstNodeV::Moved(inner) => match self.spec_infer(*inner, cls) {
                Some(t) => Some(TypeV::Qualified { inner: Box::new(t), mutable: false, borrowed: false, moved: true }),
                None => None,
            },
            AstNodeV::BinaryOperation { left, right, .. } => match self.spec_infer(*left, cls) {
                Some(lt) => match self.spec_infer(*right, cls) {
                    Some(rt) => Some(
                        if lt is F64 || rt is F64 {
                            TypeV::F64
                        } else if lt is F32 || rt is F32 {
                            TypeV::F32
                        } else if !(lt is Unknown) {
                            lt
                        } else {
                            rt
                        },
                    ),
                    None => None,
                },
                None => None,
            },
            AstNodeV::NamespaceIndex { indexee, index } => match *indexee {
                AstNodeV::Identifier(ns) => match *index {
                    AstNodeV::Identifier(member) => if self.scopes.spec_namespace(ns) is Some {
                        match self.scopes.spec_lookup_type(ns) {
                            Some(t) => match t@ {
                                TypeV::Class(id) => self.spec_member_type(id, member, false),
                                _ => Some(TypeV::Unknown),
                            },
                            None => Some(TypeV::Unknown),
                        }
                    } else {
                        Some(TypeV::Unknown)
                    },
                    _ => Some(TypeV::Unknown),
                },
                _ => Some(TypeV::Unknown),
            },
            AstNodeV::FunctionCall { callee, .. } => match self.spec_infer(*callee, cls) {
                Some(TypeV::Function(ft)) => Some(*ft.return_type),
                Some(_) => Some(TypeV::Unknown),
                None => None,
            },
            AstNodeV::DotIndex { indexee, index } => match self.spec_infer(*indexee, cls) {
                Some(ot) => match *index {
                    AstNodeV::Identifier(name) => match ot {
                        TypeV::Class(id) => self.spec_member_type(id, name, true),
                        _ => Some(TypeV::Unknown),
                    },
                    _ => Some(TypeV::Unknown),
                },
                None => None,
            },
            AstNodeV::ClassLiteral { ty, .. } => match *ty {
                AstNodeV::Identifier(s) => Some(self.spec_type_or_unknown(s)),
                AstNodeV::SelfExpr => match cls {
                    Some(n) => Some(self.spec_type_or_unknown(n)),
                    None => None,
                },
                _ => Some(TypeV::Unknown),
            },
            _ => Some(TypeV::Unknown),
        }
    }

    /// The class a type names, if it names one.
    pub fn get_class(&self, ty: &Type) -> (r: Option<&ClassType>)
        requires
            ty@ matches TypeV::Class(id) ==> id.0 < self.type_arena.classes@.len(),
        ensures
            match ty@ {
                TypeV::Class(id) => r == Some(&self.type_arena.classes@[id.0 as int]),
                _ => r is None,
            },
    {
        match ty {
            Type::Class(id) => Some(self.type_arena.get_class(*id)),
            _ => None,
        }
    }

    /// The class a type names, if it names one, to be changed in place.
    pub fn get_class_mut(&mut self, ty: &Type) -> (r: Option<&mut ClassType>)
        requires
            ty@ matches TypeV::Class(id) ==> id.0 < old(self).type_arena.classes@.len(),
        ensures
            match ty@ {
                TypeV::Class(id) => r matches Some(c) && *c == old(self).type_arena.classes@[id.0 as int]
                    && final(self).type_arena.classes@ == old(self).type_arena.classes@.update(id.0 as int, *final(c)),
                _ => r is None && final(self).type_arena == old(self).type_arena,
            },
            final(self).scopes == old(self).scopes,
            final(self).proto_stack == old(self).proto_stack,
            final(self).reg_alloc == old(self).reg_alloc,
            final(self).proto_depth == old(self).proto_depth,
            final(self).native_protos == old(self).native_protos,
            final(self).native_namespaces == old(self).native_namespaces,
    {
        match ty {
            Type::Class(id) => Some(self.type_arena.get_class_mut(*id)),
            _ => None,
        }
    }

    /// The built-in type named `name`, if there is one.
    pub fn resolve_builtin(name: &String) -> (r: Option<Type>)
        ensures
            view_opt_type(r) == spec_builtin(name@),
    {
        if name_is(name, "u8") {
            Some(Type::U8)
        } else if name_is(name, "i8") {
            Some(Type::I8)
        } else if name_is(name, "u16") {
            Some(Type::U16)
        } else if name_is(name, "i16") {
            Some(Type::I16)
        } else if name_is(name, "u32") {
            Some(Type::U32)
        } else if name_is(name, "i32") {
            Some(Type::I32)
        } else if name_is(name, "u64") {
            Some(Type::U64)
        } else if name_is(name, "i64") {
            Some(Type::I64)
        } else if name_is(name, "usize") {
            Some(Type::USize)
        } else if name_is(name, "bool") {
            Some(Type::Bool)
        } else if name_is(name, "string") {
            Some(Type::String)
        } else if name_is(name, "empty") {
            Some(Type::Empty)
        } else {
            None
        }
    }

    /// The type a type annotation stands for.
    pub fn compile_type(&self, node: &TypeNode) -> (t: Type)
        ensures
            t@ == self.spec_compile_type(node@),
        decreases node, 0nat,
    {
        match node {
            TypeNode::Inferred => Type::Unknown,
            TypeNode::ArrayType { elem_type } => Type::Array(Box::new(self.compile_type(elem_type))),
            TypeNode::Qualified { inner, mutable, borrowed, moved } => Type::Qualified {
                inner: Box::new(self.compile_type(inner)),
                mutable: *mutable,
                borrowed: *borrowed,
                moved: *moved,
            },
            TypeNode::NominalType { name, generics } => {
                if let Some(t) = Self::resolve_builtin(name) {
                    return t;
                }
                if let Some(found) = self.scopes.lookup_type(name) {
                    return found.copy();
                }
                proof {
                    crate::syntax::lemma_view_tnodes(generics@);
                }
                if generics.len() == 0 {
                    Type::TypeVar(name.clone())
                } else {
                    proof {
                        assert(decreases_to!(node => generics@));
                    }
                    Type::Generic { name: name.clone(), args: self.compile_types(generics) }
                }
            },
        }
    }

    fn compile_types(&self, v: &Vec<TypeNode>) -> (r: Vec<Type>)
        ensures
            view_types(r@) == self.spec_compile_types(view_tnodes(v@)),
        decreases v@, 0nat,
    {
        let mut r: Vec<Type> = Vec::new();
        let mut i: usize = 0;
        proof {
            assert(view_tnodes(v@.take(0)) =~= Seq::<TypeNodeV>::empty()) by {
                crate::syntax::lemma_view_tnodes(v@.take(0));
            }
            assert(view_types(r@) =~= Seq::<TypeV>::empty());
        }
        while i < v.len()
            invariant
                i <= v.len(),
                view_types(r@) == self.spec_compile_types(view_tnodes(v@.take(i as int))),
            decreases v.len() - i,
        {
            proof {
                assert(decreases_to!(v@ => v@[i as int]));
            }
            let t = self.compile_type(&v[i]);
            let ghost r0 = r@;
            r.push(t);
            proof {
                let vt = v@.take(i + 1);
                assert(vt.drop_last() =~= v@.take(i as int));
                assert(view_tnodes(vt) == view_tnodes(vt.drop_last()).push(vt.last().view()));
                let x = view_tnodes(vt);
                assert(x.drop_last() =~= view_tnodes(v@.take(i as int)));
                assert(self.spec_compile_types(x) == self.spec_compile_types(x.drop_last()).push(
                    self.spec_compile_type(x.last()),
                ));
                assert(r@.drop_last() =~= r0);
                assert(view_types(r@) == view_types(r@.drop_last()).push(r@.last().view()));
            }
            i = i + 1;
        }
        assert(v@.take(v.len() as int) =~= v@);
        r
    }

    fn unknown_class() -> (e: CompileError)
        ensures
            e matches CompileError::Unsupported(m) && m@ == "type refers to a class that does not exist"@,
    {
        let m = String::from_str("type refers to a class that does not exist");
        proof {
            reveal_strlit("type refers to a class that does not exist");
        }
        CompileError::Unsupported(m)
    }

    fn member_type(&self, id: crate::ty::TypeId, name: &String, fields_too: bool) -> (r: Result<Type, CompileError>)
        ensures
            match r {
                Ok(t) => self.spec_member_type(id, name@, fields_too) == Some(t@),
                Err(_) => self.spec_member_type(id, name@, fields_too) is None,
            },
    {
        if id.0 >= self.type_arena.classes.len() {
            return Err(Self::unknown_class());
        }
        let class = self.type_arena.get_class(id);
        if fields_too {
            if let Some(i) = class.find_field(name) {
                proof {
                    crate::ty::lemma_first_field_index(class.fields@, name@);
                }
                return Ok(class.fields[i].1.copy());
            }
        }
        match class.methods.get(name) {
            Some(m) => Ok(Type::Function(Box::new(m.2.copy()))),
            None => Ok(Type::Unknown),
        }
    }

    fn type_or_unknown(&self, name: &String) -> (t: Type)
        ensures
            t@ == self.spec_type_or_unknown(name@),
    {
        match self.scopes.lookup_type(name) {
            Some(t) => t.copy(),
            None => Type::Unknown,
        }
    }

    /// The static type of an expression.
    pub fn infer_expr_type(&self, expr: &AstNode, ctx: &CompilingCtx) -> (r: Result<Type, CompileError>)
        ensures
            match r {
                Ok(t) => self.spec_infer(expr@, ctx.class_name()) == Some(t@),
                Err(e) => self.spec_infer(expr@, ctx.class_name()) is None,
            },
        decreases expr,
    {
        match expr {
            AstNode::IntLiteral(_) => Ok(Type::I32),
            AstNode::FloatLiteral(_) => Ok(Type::F64),
            AstNode::StringLiteral(_) => Ok(Type::String),
            AstNode::SelfExpr => match &ctx.current_class {
                Some(n) => {
                    let t = self.type_or_unknown(n);
                    assert(self.spec_infer(expr@, ctx.class_name()) == Some(t@));
                    Ok(t)
                },
                None => Ok(Type::Unknown),
            },
            AstNode::Identifier(name) => {
                let res = self.scopes.resolve_local(name, self.proto_depth);
                match res {
                    Some(LocalResolution::Local { ty, .. }) => {
                        assert(self.spec_infer(expr@, ctx.class_name()) == Some(ty@));
                        Ok(ty)
                    },
                    Some(LocalResolution::OuterProto { ty, .. }) => {
                        assert(self.spec_infer(expr@, ctx.class_name()) == Some(ty@));
                        Ok(ty)
                    },
                    None => Ok(Type::Unknown),
                }
            },
            AstNode::Borrowed(inner) => match self.infer_expr_type(inner, ctx) {
                Ok(t) => Ok(Type::Qualified { inner: Box::new(t), mutable: false, borrowed: true, moved: false }),
                Err(e) => Err(e),
            },
            AstNode::Moved(inner) => match self.infer_expr_type(inner, ctx) {
                Ok(t) => Ok(Type::Qualified { inner: Box::new(t), mutable: false, borrowed: false, moved: true }),
                Err(e) => Err(e),
            },
            AstNode::BinaryOperation { left, right, .. } => {
                let lt = match self.infer_expr_type(left, ctx) {
                    Ok(t) => t,
                    Err(e) => return Err(e),
                };
                let rt = match self.infer_expr_type(right, ctx) {
                    Ok(t) => t,
                    Err(e) => return Err(e),
                };
                if matches!(lt, Type::F64) || matches!(rt, Type::F64) {
                    return Ok(Type::F64);
                }
                if matches!(lt, Type::F32) || matches!(rt, Type::F32) {
                    return Ok(Type::F32);
                }
                if !matches!(lt, Type::Unknown) {
                    assert(self.spec_infer(expr@, ctx.class_name()) == Some(lt@));
                    Ok(lt)
                } else {
                    assert(self.spec_infer(expr@, ctx.class_name()) == Some(rt@));
                    Ok(rt)
                }
            },
            AstNode::NamespaceIndex { indexee, index } => {
                let ns_name = match &**indexee {
                    AstNode::Identifier(s) => s,
                    _ => {
                        assert(!((**indexee)@ is Identifier));
                        return Ok(Type::Unknown);
                    },
                };
                let member_name = match &**index {
                    AstNode::Identifier(s) => s,
                    _ => {
                        assert(!((**index)@ is Identifier));
                        return Ok(Type::Unknown);
                    },
                };
                if Self::find_namespace_in_scopes(&self.scopes, ns_name).is_some() {
                    match self.scopes.lookup_type(ns_name) {
                        Some(Type::Class(id)) => {
                            return self.member_type(*id, member_name, false);
                        },
                        Some(t) => {
                            assert(!(t@ is Class));
                        },
                        None => {},
                    }
                }
                Ok(Type::Unknown)
            },
            AstNode::FunctionCall { callee, .. } => match self.infer_expr_type(callee, ctx) {
                Ok(Type::Function(ft)) => {
                    let t = ft.return_type.copy();
                    assert(*ft@.return_type == (*ft.return_type)@);
                    Ok(t)
                },
                Ok(t) => {
                    assert(!(t@ is Function));
                    Ok(Type::Unknown)
                },
                Err(e) => Err(e),
            },
            AstNode::DotIndex { indexee, index } => {
                let obj_ty = match self.infer_expr_type(indexee, ctx) {
                    Ok(t) => t,
                    Err(e) => return Err(e),
                };
                let name = match &**index {
                    AstNode::Identifier(s) => s,
                    _ => {
                        assert(!((**index)@ is Identifier));
                        return Ok(Type::Unknown);
                    },
                };
                match &obj_ty {
                    Type::Class(id) => self.member_type(*id, name, true),
                    _ => {
                        assert(!(obj_ty@ is Class));
                        Ok(Type::Unknown)
                    },
                }
            },
            AstNode::ClassLiteral { ty, .. } => match &**ty {
                AstNode::Identifier(s) => {
                    let t = self.type_or_unknown(s);
                    assert(self.spec_infer(expr@, ctx.class_name()) == Some(t@));
                    Ok(t)
                },
                AstNode::SelfExpr => match &ctx.current_class {
                    Some(n) => {
                        let t = self.type_or_unknown(n);
                        assert(self.spec_infer(expr@, ctx.class_name()) == Some(t@));
                        Ok(t)
                    },
                    None => Err(CompileError::TypeError(String::from_str("Self used outside of class"))),
                },
                _ => {
                    assert(!((**ty)@ is Identifier) && !((**ty)@ is SelfExpr));
                    Ok(Type::Unknown)
                },
            },
            _ => {
                assert(self.spec_infer(expr@, ctx.class_name()) == Some(TypeV::Unknown));
                Ok(Type::Unknown)
            },
        }
    }

    /// The type under the qualifiers of `ty`, checking that no level is both
    /// borrowed and moved.
    pub fn resolve_type<'a>(&self, ty: &'a Type, context: &str) -> (r: Result<&'a Type, CompileError>)
        ensures
            match r {
                Ok(t) => spec_resolve_type(ty@) == Some(t@),
                Err(e) => spec_resolve_type(ty@) is None && (e matches CompileError::TypeError(m)
                    && m@ == context@ + ": type cannot be both borrowed and moved"@),
            },
        decreases ty,
    {
        match ty {
            Type::Qualified { inner, borrowed, moved, .. } => {
                if *borrowed && *moved {
                    let mut m = String::from_str(context);
                    m.append(": type cannot be both borrowed and moved");
                    return Err(CompileError::TypeError(m));
                }
                self.resolve_type(inner, context)
            },
            other => Ok(other),
        }
    }

    /// Checks that a value of type `rhs` may be stored where `lhs` is
    /// expected: either is `Unknown`, or they agree under one level of
    /// qualification.
    pub fn assert_assignable(&self, lhs: &Type, rhs: &Type, context: &str) -> (r: Result<(), CompileError>)
        ensures
            r is Ok <==> spec_assignable(lhs@, rhs@),
            r matches Err(e) ==> e matches CompileError::TypeError(m) && m@ == assignable_message(context@, lhs@, rhs@),
    {
        if matches!(lhs, Type::Unknown) || matches!(rhs, Type::Unknown) {
            return Ok(());
        }
        let l = lhs.inner();
        let r = rhs.inner();
        if !l.equals(r) {
            let mut m = String::from_str(context);
            m.append(": expected '");
            let ls = lhs.display_string();
            m.append(ls.as_str());
            m.append("', got '");
            let rs = rhs.display_string();
            m.append(rs.as_str());
            m.append("'");
            return Err(CompileError::TypeError(m));
        }
        Ok(())
    }

    /// Checks that `ty` is `Unknown` or an integer type under one level of
    /// qualification.
    pub fn assert_numeric(&self, ty: &Type, context: &str) -> (r: Result<(), CompileError>)
        ensures
            r is Ok <==> (ty@ is Unknown || Type::spec_is_numeric(Type::spec_inner(ty@))),
            r matches Err(e) ==> e matches CompileError::TypeError(m) && m@ == numeric_message(context@, ty@),
    {
        if matches!(ty, Type::Unknown) {
            return Ok(());
        }
        if !ty.inner().is_numeric() {
            return Err(CompileError::TypeError(Self::numeric_message(ty, context)));
        }
        Ok(())
    }

    fn numeric_message(ty: &Type, context: &str) -> (m: String)
        ensures
            m@ == numeric_message(context@, ty@),
    {
        let mut m = String::from_str(context);
        m.append(": '");
        let ts = ty.display_string();
        m.append(ts.as_str());
        m.append("' is not a numeric type");
        m
    }

    /// Checks that `ty` is `Unknown`, or an integer type, a float type or
    /// `Unknown` under one level of qualification.
    pub fn assert_numeric_or_float(&self, ty: &Type, context: &str) -> (r: Result<(), CompileError>)
        ensures
            r is Ok <==> (ty@ is Unknown || Type::spec_is_numeric(Type::spec_inner(ty@)) || Type::spec_inner(ty@) is F32
                || Type::spec_inner(ty@) is F64 || Type::spec_inner(ty@) is Unknown),
            r matches Err(e) ==> e matches CompileError::TypeError(m) && m@ == numeric_message(context@, ty@),
    {
        if matches!(ty, Type::Unknown) {
            return Ok(());
        }
        if !ty.inner().is_numeric_or_float() && !matches!(ty.inner(), Type::Unknown) {
            return Err(CompileError::TypeError(Self::numeric_message(ty, context)));
        }
        Ok(())
    }
}

impl LucyCompiler {
    /// What a type annotation stands for depends only on the types that the
    /// scopes bind.
    pub proof fn lemma_compile_type_frame(c1: LucyCompiler, c2: LucyCompiler, t: TypeNodeV)
        requires
            forall|k: Seq<char>| #[trigger] c1.scopes.spec_lookup_type(k) == c2.scopes.spec_lookup_type(k),
        ensures
            c1.spec_compile_type(t) == c2.spec_compile_type(t),
        decreases t, 1nat,
    {
        match t {
            TypeNodeV::ArrayType { elem_type } => {
                Self::lemma_compile_type_frame(c1, c2, *elem_type);
            },
            TypeNodeV::Qualified { inner, .. } => {
                Self::lemma_compile_type_frame(c1, c2, *inner);
            },
            TypeNodeV::NominalType { generics, .. } => {
                Self::lemma_compile_types_frame(c1, c2, generics);
            },
            TypeNodeV::Inferred => {},
        }
    }

    pub proof fn lemma_compile_types_frame(c1: LucyCompiler, c2: LucyCompiler, s: Seq<TypeNodeV>)
        requires
            forall|k: Seq<char>| #[trigger] c1.scopes.spec_lookup_type(k) == c2.scopes.spec_lookup_type(k),
        ensures
            c1.spec_compile_types(s) == c2.spec_compile_types(s),
        decreases s, 0nat,
    {
        if s.len() > 0 {
            Self::lemma_compile_types_frame(c1, c2, s.drop_last());
            Self::lemma_compile_type_frame(c1, c2, s.last());
        }
    }

    /// The type of an expression depends only on the scopes and the classes.
    pub proof fn lemma_infer_frame(c1: LucyCompiler, c2: LucyCompiler, e: AstNodeV, cls: Option<Seq<char>>)
        requires
            c1.scopes == c2.scopes,
            c1.type_arena == c2.type_arena,
        ensures
            c1.spec_infer(e, cls) == c2.spec_infer(e, cls),
        decreases e,
    {
        match e {
            AstNodeV::Borrowed(inner) => {
                Self::lemma_infer_frame(c1, c2, *inner, cls);
            },
            AstNodeV::Moved(inner) => {
                Self::lemma_infer_frame(c1, c2, *inner, cls);
            },
            AstNodeV::BinaryOperation { left, right, .. } => {
                Self::lemma_infer_frame(c1, c2, *left, cls);
                Self::lemma_infer_frame(c1, c2, *right, cls);
            },
            AstNodeV::FunctionCall { callee, .. } => {
                Self::lemma_infer_frame(c1, c2, *callee, cls);
            },
            AstNodeV::DotIndex { indexee, .. } => {
                Self::lemma_infer_frame(c1, c2, *indexee, cls);
            },
            _ => {},
        }
    }
}

} // verus!
