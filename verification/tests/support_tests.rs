use lib::bytecode::{opcode_number, pack_abc, pack_abx, ConstantValue, Opcode, UpvalueSource};
use lib::compiler::{CompileError, CompilingCtx, LucyCompiler};
use lib::name_map::NameMap;
use lib::scope::{LocalResolution, Namespace, RegisterAllocator, ScopeStack};
use lib::syntax::{AstNode, BindingNode, TypeNode};
use lib::ty::{decimal_text, FunctionType, Type, TypeId};

fn s(x: &str) -> String {
    x.to_string()
}

#[test]
fn instructions_pack_their_operands_bytewise() {
    assert_eq!(pack_abc(2, 1, 0, 1), 0x0100_0102);
    assert_eq!(pack_abc(0x1ff, 0x102, 3, 4), 0x0403_02ff);
    assert_eq!(pack_abx(0, 5, 0x1234), 0x1234_0500);
    assert_eq!(pack_abx(1, 0, 0x1_0001), 0x0001_0001);
    let ins = pack_abc(opcode_number(Opcode::SETFIELD), 7, 8, 9);
    assert_eq!(ins & 0xff, opcode_number(Opcode::SETFIELD));
    assert_eq!((ins >> 8) & 0xff, 7);
    assert_eq!((ins >> 16) & 0xff, 8);
    assert_eq!(ins >> 24, 9);
}

#[test]
fn opcode_numbers() {
    assert_eq!(opcode_number(Opcode::LOADK), 0);
    assert_eq!(opcode_number(Opcode::RET), 3);
    assert_eq!(opcode_number(Opcode::ADDOV), 19);
    assert_eq!(opcode_number(Opcode::TYCAST), 23);
}

#[test]
fn register_allocation_is_a_stack() {
    let mut r = RegisterAllocator { current_top: 3 };
    assert_eq!(r.allocate(), 3);
    assert_eq!(r.allocate(), 4);
    r.free_to(3);
    assert_eq!(r.current_top, 3);
    assert_eq!(r.allocate(), 3);
}

#[test]
fn name_map_replaces_in_place() {
    let mut m: NameMap<u32> = NameMap::new();
    m.insert(s("a"), 1);
    m.insert(s("b"), 2);
    m.insert(s("a"), 3);
    assert_eq!(m.len(), 2);
    assert_eq!(m.get(&s("a")), Some(&3));
    assert_eq!(m.get(&s("b")), Some(&2));
    assert_eq!(m.get(&s("c")), None);
    assert_eq!(m.key_at(0), "a");
    assert_eq!(m.position(&s("b")), Some(1));
    assert!(m.contains_key(&s("b")));
    let prev = m.replace_value_at(1, 9);
    assert_eq!(prev, 2);
    assert_eq!(m.get(&s("b")), Some(&9));
    let copy = m.copy();
    assert_eq!(copy.get(&s("a")), Some(&3));
}

#[test]
fn local_binding_is_found_and_shadowed() {
    let mut st = ScopeStack::new();
    st.push(0, 1);
    st.define_local(s("x"), 0, Type::I32, None, false);
    st.push(1, 1);
    st.define_local(s("x"), 1, Type::Bool, None, true);
    match st.resolve_local(&s("x"), 1) {
        Some(LocalResolution::Local { reg, ty, mutable, moved, .. }) => {
            assert_eq!(reg, 1);
            assert!(matches!(ty, Type::Bool));
            assert!(mutable);
            assert!(!moved);
        }
        other => panic!("unexpected {:?}", other),
    }
    assert_eq!(st.pop(), 1);
    match st.resolve_local(&s("x"), 1) {
        Some(LocalResolution::Local { reg, ty, .. }) => {
            assert_eq!(reg, 0);
            assert!(matches!(ty, Type::I32));
        }
        other => panic!("unexpected {:?}", other),
    }
    assert!(st.resolve_local(&s("y"), 1).is_none());
}

#[test]
fn binding_of_an_enclosing_function_is_reported_as_outer() {
    let mut st = ScopeStack::new();
    st.push(0, 1);
    st.define_local(s("f"), 4, Type::Unknown, Some(ConstantValue::FunctionProto(2)), false);
    st.push(0, 2);
    match st.resolve_local(&s("f"), 2) {
        Some(LocalResolution::OuterProto { reg, backing, .. }) => {
            assert_eq!(reg, 4);
            assert!(matches!(backing, Some(ConstantValue::FunctionProto(2))));
        }
        other => panic!("unexpected {:?}", other),
    }
}

#[test]
fn marking_moved_affects_the_innermost_binding_only() {
    let mut st = ScopeStack::new();
    st.push(0, 1);
    st.define_local(s("x"), 0, Type::I32, None, false);
    st.push(1, 1);
    st.define_local(s("x"), 1, Type::I32, None, false);
    st.mark_moved(&s("x"));
    assert!(matches!(st.resolve_local(&s("x"), 1), Some(LocalResolution::Local { moved: true, .. })));
    st.mark_moved(&s("x"));
    assert!(matches!(st.resolve_local(&s("x"), 1), Some(LocalResolution::Local { moved: true, reg: 1, .. })));
    st.pop();
    assert!(matches!(st.resolve_local(&s("x"), 1), Some(LocalResolution::Local { moved: false, .. })));
}

#[test]
fn exports_are_locals_too() {
    let mut st = ScopeStack::new();
    st.push(0, 1);
    st.define_export(s("e"), 2, Type::String, None, false);
    assert_eq!(st.get_current_scope().exports.get(&s("e")), Some(&2));
    assert!(matches!(st.resolve_local(&s("e"), 1), Some(LocalResolution::Local { reg: 2, .. })));
}

#[test]
fn types_and_namespaces_are_looked_up_from_the_inside_out() {
    let mut st = ScopeStack::new();
    st.push(0, 1);
    st.define_type(s("T"), Type::Class(TypeId(0)));
    st.push(0, 1);
    st.define_type(s("T"), Type::Bool);
    assert!(matches!(st.lookup_type(&s("T")), Some(Type::Bool)));
    st.pop();
    assert!(matches!(st.lookup_type(&s("T")), Some(Type::Class(TypeId(0)))));
    assert!(st.lookup_type(&s("U")).is_none());
    let mut ns = Namespace::new();
    ns.locals.insert(s("f"), (3, true));
    st.define_namespace(s("n"), ns);
    let found = LucyCompiler::find_namespace_in_scopes(&st, &s("n")).unwrap();
    assert_eq!(found.locals.get(&s("f")), Some(&(3, true)));
    assert!(LucyCompiler::find_namespace_in_scopes(&st, &s("m")).is_none());
}

#[test]
fn leaving_a_scope_frees_its_registers() {
    let mut c = LucyCompiler::new();
    c.reg_alloc.current_top = 2;
    c.enter_scope();
    assert_eq!(c.scopes.scopes.len(), 1);
    c.reg_alloc.allocate();
    c.reg_alloc.allocate();
    assert_eq!(c.reg_alloc.current_top, 4);
    c.exit_scope();
    assert_eq!(c.reg_alloc.current_top, 2);
    assert!(c.scopes.scopes.is_empty());
}

#[test]
fn leaving_a_prototype_restores_the_enclosing_one() {
    let mut c = LucyCompiler::new();
    c.reg_alloc.current_top = 5;
    c.enter_proto(s("inner"), 2);
    assert_eq!(c.proto_depth, 2);
    assert_eq!(c.reg_alloc.current_top, 0);
    c.emit(7);
    let p = c.exit_proto();
    assert_eq!(p.name, "inner");
    assert_eq!(p.arity, 2);
    assert_eq!(p.code, vec![7]);
    assert_eq!(p.saved_reg_top, 5);
    assert_eq!(c.proto_depth, 1);
    assert_eq!(c.reg_alloc.current_top, 5);
    assert_eq!(c.proto_stack.len(), 1);
}

#[test]
fn capturing_a_variable_twice_gives_one_upvalue() {
    let mut c = LucyCompiler::new();
    let i = c.capture_upvalue(&s("x"), UpvalueSource::ParentRegister(3), Type::I32);
    let j = c.capture_upvalue(&s("y"), UpvalueSource::ParentRegister(4), Type::I32);
    let k = c.capture_upvalue(&s("x"), UpvalueSource::ParentRegister(9), Type::Bool);
    assert_eq!((i, j, k), (0, 1, 0));
    let ups = &c.proto_stack[0].upvalues;
    assert_eq!(ups.len(), 2);
    assert_eq!(ups[0].source, UpvalueSource::ParentRegister(3));
}

#[test]
fn outer_variables_are_read_through_upvalues() {
    // An enclosing function's variable with no constant behind it.
    let mut c = LucyCompiler::new();
    c.enter_scope();
    c.scopes.define_local(s("x"), 3, Type::I32, None, false);
    c.enter_proto(s("inner"), 0);
    c.enter_scope();
    let ctx = CompilingCtx::new();
    assert!(c.compile_expr(&AstNode::Identifier(s("x")), 0, &ctx).is_ok());
    let inner = c.proto_stack.last().unwrap();
    assert_eq!(inner.upvalues.len(), 1);
    assert_eq!(inner.upvalues[0].source, UpvalueSource::ParentRegister(3));
    assert_eq!(inner.code[0] & 0xff, opcode_number(Opcode::GETUPVAL));
}

#[test]
fn native_functions_are_numbered_in_order() {
    let mut c = LucyCompiler::new();
    assert_eq!(c.lulib_register_native_fn("a", 1), 0);
    assert_eq!(c.lulib_register_native_fn("b", 2), 1);
    c.enter_scope();
    c.lulib_register_namespace("n", |b| b.function("c", 0));
    assert_eq!(c.native_protos.len(), 3);
    let ns = LucyCompiler::find_namespace_in_scopes(&c.scopes, &s("n")).unwrap();
    assert_eq!(ns.locals.get(&s("c")), Some(&(2, true)));
}

#[test]
fn types_are_written_as_in_source() {
    assert_eq!(Type::I32.display_string(), "i32");
    assert_eq!(Type::Unknown.display_string(), "<inferred>");
    assert_eq!(Type::Array(Box::new(Type::U8)).display_string(), "[u8]");
    assert_eq!(Type::Class(TypeId(12)).display_string(), "TypeId(12)");
    let q = Type::Qualified { inner: Box::new(Type::I32), mutable: true, borrowed: true, moved: false };
    assert_eq!(q.display_string(), "mut &i32");
    let f = Type::Function(Box::new(FunctionType { params: vec![Type::I32, Type::String], return_type: Box::new(Type::Bool) }));
    assert_eq!(f.display_string(), "fn(i32, string) -> bool");
    let g = Type::Generic { name: s("Map"), args: vec![Type::String, Type::F64] };
    assert_eq!(g.display_string(), "Map<string, f64>");
    assert_eq!(Type::TypeVar(s("T")).display_string(), "T");
    assert_eq!(decimal_text(0), "0");
    assert_eq!(decimal_text(907), "907");
}

#[test]
fn type_queries() {
    let q = Type::Qualified { inner: Box::new(Type::U16), mutable: true, borrowed: false, moved: false };
    assert!(q.is_mutable());
    assert!(!Type::U16.is_mutable());
    assert!(q.inner().is_numeric());
    assert!(!q.is_numeric());
    assert!(Type::F32.is_numeric_or_float());
    assert!(!Type::Bool.is_numeric_or_float());
    assert!(Type::I64.equals(&Type::I64.copy()));
    assert!(!Type::I64.equals(&Type::U64));
}

#[test]
fn annotations_name_builtin_types_first() {
    let mut c = LucyCompiler::new();
    c.enter_scope();
    c.scopes.define_type(s("i32"), Type::Bool);
    c.scopes.define_type(s("Point"), Type::Class(TypeId(0)));
    let nominal = |n: &str| TypeNode::NominalType { name: s(n), generics: vec![] };
    assert!(matches!(c.compile_type(&nominal("i32")), Type::I32));
    assert!(matches!(c.compile_type(&nominal("Point")), Type::Class(TypeId(0))));
    assert!(matches!(c.compile_type(&nominal("T")), Type::TypeVar(n) if n == "T"));
    let generic = TypeNode::NominalType { name: s("Vec"), generics: vec![nominal("u8")] };
    match c.compile_type(&generic) {
        Type::Generic { name, args } => {
            assert_eq!(name, "Vec");
            assert!(matches!(args[0], Type::U8));
        }
        other => panic!("unexpected {:?}", other),
    }
    let arr = TypeNode::ArrayType { elem_type: Box::new(nominal("bool")) };
    assert!(matches!(c.compile_type(&arr), Type::Array(b) if matches!(*b, Type::Bool)));
    assert!(matches!(c.compile_type(&TypeNode::Inferred), Type::Unknown));
    assert!(matches!(LucyCompiler::resolve_builtin(&s("usize")), Some(Type::USize)));
    assert!(LucyCompiler::resolve_builtin(&s("float")).is_none());
}

#[test]
fn literal_types() {
    let c = LucyCompiler::new();
    let ctx = CompilingCtx::new();
    assert!(matches!(c.infer_expr_type(&AstNode::IntLiteral(1), &ctx), Ok(Type::I32)));
    assert!(matches!(c.infer_expr_type(&AstNode::FloatLiteral(0), &ctx), Ok(Type::F64)));
    assert!(matches!(c.infer_expr_type(&AstNode::StringLiteral(s("a")), &ctx), Ok(Type::String)));
    let mixed = AstNode::BinaryOperation {
        op: lib::operator::Operator::Add,
        left: Box::new(AstNode::IntLiteral(1)),
        right: Box::new(AstNode::FloatLiteral(0)),
    };
    assert!(matches!(c.infer_expr_type(&mixed, &ctx), Ok(Type::F64)));
    let borrowed = AstNode::Borrowed(Box::new(AstNode::IntLiteral(1)));
    assert!(matches!(
        c.infer_expr_type(&borrowed, &ctx),
        Ok(Type::Qualified { borrowed: true, moved: false, mutable: false, .. })
    ));
    let self_literal = AstNode::ClassLiteral { ty: Box::new(AstNode::SelfExpr), fields: vec![] };
    assert!(matches!(c.infer_expr_type(&self_literal, &ctx), Err(CompileError::TypeError(m)) if m == "Self used outside of class"));
}

#[test]
fn assignability_and_numeric_checks() {
    let c = LucyCompiler::new();
    assert!(c.assert_assignable(&Type::I32, &Type::I32, "x").is_ok());
    assert!(c.assert_assignable(&Type::Unknown, &Type::Bool, "x").is_ok());
    let mut_i32 = Type::Qualified { inner: Box::new(Type::I32), mutable: true, borrowed: false, moved: false };
    assert!(c.assert_assignable(&mut_i32, &Type::I32, "x").is_ok());
    match c.assert_assignable(&Type::I32, &Type::Bool, "ctx") {
        Err(CompileError::TypeError(m)) => assert_eq!(m, "ctx: expected 'i32', got 'bool'"),
        other => panic!("unexpected {:?}", other),
    }
    assert!(c.assert_numeric(&Type::USize, "n").is_ok());
    assert!(c.assert_numeric(&Type::Unknown, "n").is_ok());
    match c.assert_numeric(&Type::String, "n") {
        Err(CompileError::TypeError(m)) => assert_eq!(m, "n: 'string' is not a numeric type"),
        other => panic!("unexpected {:?}", other),
    }
    assert!(c.assert_numeric_or_float(&Type::I8, "n").is_ok());
    assert!(c.assert_numeric_or_float(&Type::F64, "n").is_ok());
    assert!(c.assert_numeric_or_float(&Type::F32, "n").is_ok());
    assert!(c.assert_numeric_or_float(&Type::Bool, "n").is_err());
    let both = Type::Qualified { inner: Box::new(Type::I32), mutable: false, borrowed: true, moved: true };
    match c.resolve_type(&both, "here") {
        Err(CompileError::TypeError(m)) => assert_eq!(m, "here: type cannot be both borrowed and moved"),
        other => panic!("unexpected {:?}", other),
    }
    assert!(matches!(c.resolve_type(&mut_i32, "here"), Ok(Type::I32)));
}

#[test]
fn class_lookup_by_type() {
    let mut c = LucyCompiler::new();
    assert!(c.get_class(&Type::Bool).is_none());
    c.enter_scope();
    let prog = AstNode::ClassDefinition { name: s("C"), members: vec![] };
    let ctx = CompilingCtx::new();
    assert!(c.compile_stmt(&prog, &ctx).is_ok());
    let class = c.get_class(&Type::Class(TypeId(0))).unwrap();
    assert_eq!(class.name, "C");
    c.get_class_mut(&Type::Class(TypeId(0))).unwrap().name = s("D");
    assert_eq!(c.type_arena.classes[0].name, "D");
}

#[test]
fn function_declaration_reports_its_type_and_load() {
    let i32_ty = TypeNode::NominalType { name: s("i32"), generics: vec![] };
    let params = vec![
        BindingNode::IdentifierBinding { name: s("a"), ty: TypeNode::NominalType { name: s("i32"), generics: vec![] } },
        BindingNode::IdentifierBinding { name: s("b"), ty: TypeNode::NominalType { name: s("string"), generics: vec![] } },
    ];
    let body = vec![AstNode::ReturnStmt { value: Some(Box::new(AstNode::IntLiteral(3))) }];
    let ctx = CompilingCtx::new();

    // Declared return type.
    let mut c = LucyCompiler::new();
    c.enter_scope();
    let (dst, idx, ft) = c.compile_function_decl(&s("f"), &params, &i32_ty, &body, false, &ctx).unwrap();
    assert_eq!((dst, idx), (0, 0));
    assert!(matches!(ft.params.as_slice(), [Type::I32, Type::String]));
    assert!(matches!(*ft.return_type, Type::I32));
    let code = &c.proto_stack[0].code;
    assert_eq!(*code.last().unwrap(), pack_abx(opcode_number(Opcode::LOADK), 0, 0));
    assert!(matches!(c.proto_stack[0].constants[0], ConstantValue::FunctionProto(0)));

    // Inferred return type: the first typed return.
    let mut c = LucyCompiler::new();
    c.enter_scope();
    let (_, _, ft) = c.compile_function_decl(&s("g"), &vec![], &TypeNode::Inferred, &body, true, &ctx).unwrap();
    assert!(ft.params.is_empty());
    assert!(matches!(*ft.return_type, Type::I32));
    assert_eq!(c.reg_alloc.current_top, 0);
}

#[test]
fn binary_operation_of_literals_compiles_to_exact_code() {
    let mut c = LucyCompiler::new();
    c.enter_scope();
    c.reg_alloc.current_top = 1;
    let e = AstNode::BinaryOperation {
        op: lib::operator::Operator::Sub,
        left: Box::new(AstNode::IntLiteral(5)),
        right: Box::new(AstNode::IntLiteral(3)),
    };
    assert!(c.compile_expr(&e, 0, &CompilingCtx::new()).is_ok());
    let main = &c.proto_stack[0];
    assert_eq!(
        main.code,
        vec![
            pack_abx(opcode_number(Opcode::LOADK), 1, 0),
            pack_abx(opcode_number(Opcode::LOADK), 2, 1),
            pack_abc(opcode_number(Opcode::SUB), 0, 1, 2)
        ]
    );
    assert!(matches!(main.constants.as_slice(), [ConstantValue::I32(5), ConstantValue::I32(3)]));
    assert_eq!(c.reg_alloc.current_top, 1);
}

#[test]
fn library_namespace_is_what_the_builder_made() {
    let mut c = LucyCompiler::new();
    c.lulib_openlib("@m", |b| b.function("f", 0).function("g", 2));
    let ns = c.native_namespaces.get(&s("@m")).unwrap();
    assert_eq!(ns.locals.get(&s("f")), Some(&(0usize, true)));
    assert_eq!(ns.locals.get(&s("g")), Some(&(1usize, true)));
    assert!(ns.children.is_empty());
    assert_eq!(c.native_protos.len(), 2);
    c.enter_scope();
    c.lulib_register_namespace("local", |b| b.function("h", 1));
    let scope = c.scopes.get_current_scope();
    let ns = scope.namespaces.get(&s("local")).unwrap();
    assert_eq!(ns.locals.get(&s("h")), Some(&(2usize, true)));
    assert!(c.native_namespaces.get(&s("@m")).is_some());
}

#[test]
fn empty_function_has_exact_prototype() {
    let mut c = LucyCompiler::new();
    c.enter_scope();
    let ctx = CompilingCtx::new();
    let (dst, idx, ft) = c.compile_function_decl(&s("m"), &vec![], &TypeNode::Inferred, &vec![], true, &ctx).unwrap();
    assert_eq!((dst, idx), (0, 0));
    assert!(matches!(*ft.return_type, Type::Unknown));
    let p = &c.proto_stack[0].protos[0];
    assert_eq!(p.code, vec![pack_abc(opcode_number(Opcode::RET), 0, 0, 0)]);
    assert!(p.constants.is_empty());
    assert!(c.proto_stack[0].code.is_empty());
}

#[test]
fn nested_arithmetic_compiles_operands_above_each_other() {
    let mut c = LucyCompiler::new();
    c.enter_scope();
    c.reg_alloc.current_top = 1;
    let diff = AstNode::BinaryOperation {
        op: lib::operator::Operator::Sub,
        left: Box::new(AstNode::IntLiteral(5)),
        right: Box::new(AstNode::IntLiteral(3)),
    };
    let e = AstNode::BinaryOperation {
        op: lib::operator::Operator::Mul,
        left: Box::new(diff),
        right: Box::new(AstNode::IntLiteral(5)),
    };
    assert!(c.compile_expr(&e, 0, &CompilingCtx::new()).is_ok());
    let main = &c.proto_stack[0];
    assert_eq!(
        main.code,
        vec![
            pack_abx(opcode_number(Opcode::LOADK), 3, 0),
            pack_abx(opcode_number(Opcode::LOADK), 4, 1),
            pack_abc(opcode_number(Opcode::SUB), 1, 3, 4),
            pack_abx(opcode_number(Opcode::LOADK), 2, 0),
            pack_abc(opcode_number(Opcode::MUL), 0, 1, 2)
        ]
    );
    assert!(matches!(main.constants.as_slice(), [ConstantValue::I32(5), ConstantValue::I32(3)]));
    assert_eq!(c.reg_alloc.current_top, 1);
}

#[test]
fn return_of_arithmetic_computes_into_the_register_top() {
    let mut c = LucyCompiler::new();
    c.enter_scope();
    c.reg_alloc.current_top = 1;
    let product = AstNode::BinaryOperation {
        op: lib::operator::Operator::Mul,
        left: Box::new(AstNode::IntLiteral(2)),
        right: Box::new(AstNode::IntLiteral(3)),
    };
    let stmt = AstNode::ReturnStmt { value: Some(Box::new(product)) };
    assert!(c.compile_stmt(&stmt, &CompilingCtx::new()).is_ok());
    assert_eq!(
        c.proto_stack[0].code,
        vec![
            pack_abx(opcode_number(Opcode::LOADK), 2, 0),
            pack_abx(opcode_number(Opcode::LOADK), 3, 1),
            pack_abc(opcode_number(Opcode::MUL), 1, 2, 3),
            pack_abc(opcode_number(Opcode::RET), 1, 1, 0)
        ]
    );
    assert_eq!(c.reg_alloc.current_top, 1);
}

#[test]
fn function_returning_arithmetic_has_exact_prototype() {
    let params = vec![BindingNode::IdentifierBinding {
        name: s("a"),
        ty: TypeNode::NominalType { name: s("i32"), generics: vec![] },
    }];
    let product = AstNode::BinaryOperation {
        op: lib::operator::Operator::Mul,
        left: Box::new(AstNode::IntLiteral(2)),
        right: Box::new(AstNode::IntLiteral(3)),
    };
    let body = vec![AstNode::ReturnStmt { value: Some(Box::new(product)) }];
    let mut c = LucyCompiler::new();
    c.enter_scope();
    let (_, idx, ft) = c.compile_function_decl(&s("f"), &params, &TypeNode::Inferred, &body, false, &CompilingCtx::new()).unwrap();
    assert!(matches!(*ft.return_type, Type::I32));
    let proto = &c.proto_stack[0].protos[idx];
    assert_eq!(
        proto.code,
        vec![
            pack_abx(opcode_number(Opcode::LOADK), 2, 0),
            pack_abx(opcode_number(Opcode::LOADK), 3, 1),
            pack_abc(opcode_number(Opcode::MUL), 1, 2, 3),
            pack_abc(opcode_number(Opcode::RET), 1, 1, 0),
            pack_abc(opcode_number(Opcode::RET), 0, 0, 0)
        ]
    );
    assert!(matches!(proto.constants.as_slice(), [ConstantValue::I32(2), ConstantValue::I32(3)]));
}

#[test]
fn call_of_a_function_with_literal_arguments_has_exact_code() {
    let params = vec![
        BindingNode::IdentifierBinding { name: s("a"), ty: TypeNode::NominalType { name: s("i32"), generics: vec![] } },
        BindingNode::IdentifierBinding { name: s("b"), ty: TypeNode::NominalType { name: s("i32"), generics: vec![] } },
    ];
    let mut c = LucyCompiler::new();
    c.enter_scope();
    let ctx = CompilingCtx::new();
    c.compile_function_decl(&s("f"), &params, &TypeNode::Inferred, &vec![], false, &ctx).unwrap();
    c.reg_alloc.current_top = 2;
    let call = AstNode::FunctionCall {
        callee: Box::new(AstNode::Identifier(s("f"))),
        args: vec![AstNode::IntLiteral(7), AstNode::IntLiteral(8)],
    };
    assert!(c.compile_expr(&call, 1, &ctx).is_ok());
    let main = &c.proto_stack[0];
    assert_eq!(
        main.code,
        vec![
            pack_abx(opcode_number(Opcode::LOADK), 0, 0),
            pack_abc(opcode_number(Opcode::MOVE), 1, 0, 0),
            pack_abx(opcode_number(Opcode::LOADK), 2, 1),
            pack_abx(opcode_number(Opcode::LOADK), 3, 2),
            pack_abc(opcode_number(Opcode::CALL), 1, 2, 1)
        ]
    );
    assert!(matches!(
        main.constants.as_slice(),
        [ConstantValue::FunctionProto(0), ConstantValue::I32(7), ConstantValue::I32(8)]
    ));
    assert_eq!(c.reg_alloc.current_top, 2);
}

#[test]
fn arithmetic_statement_computes_into_a_scratch_register() {
    let mut c = LucyCompiler::new();
    c.enter_scope();
    c.reg_alloc.current_top = 1;
    let sum = AstNode::BinaryOperation {
        op: lib::operator::Operator::Add,
        left: Box::new(AstNode::IntLiteral(2)),
        right: Box::new(AstNode::IntLiteral(3)),
    };
    assert!(c.compile_stmt(&sum, &CompilingCtx::new()).is_ok());
    assert_eq!(
        c.proto_stack[0].code,
        vec![
            pack_abx(opcode_number(Opcode::LOADK), 2, 0),
            pack_abx(opcode_number(Opcode::LOADK), 3, 1),
            pack_abc(opcode_number(Opcode::ADD), 1, 2, 3)
        ]
    );
    assert_eq!(c.reg_alloc.current_top, 1);
}
