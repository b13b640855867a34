use lib::bytecode::{opcode_number, ConstantValue, Opcode};
use lib::compiler::{CompileError, CompilingCtx, LucyCompiler};
use lib::operator::Operator;
use lib::syntax::{AstNode, BindingNode, ClassMember, TypeNode};

fn id(s: &str) -> AstNode {
    AstNode::Identifier(s.to_string())
}

fn lit(n: i32) -> AstNode {
    AstNode::IntLiteral(n)
}

fn nominal(name: &str) -> TypeNode {
    TypeNode::NominalType { name: name.to_string(), generics: vec![] }
}

fn declare(name: &str, ty: TypeNode, init: Option<AstNode>) -> AstNode {
    AstNode::VarDeclaration {
        binding: BindingNode::IdentifierBinding { name: name.to_string(), ty },
        init_value: init.map(Box::new),
    }
}

fn param(name: &str, ty: TypeNode) -> BindingNode {
    BindingNode::IdentifierBinding { name: name.to_string(), ty }
}

fn function(name: &str, params: Vec<BindingNode>, ret: TypeNode, body: Vec<AstNode>) -> AstNode {
    AstNode::FunctionDeclaration { name: name.to_string(), type_params: vec![], params, return_type: ret, body }
}

fn ret(v: Option<AstNode>) -> AstNode {
    AstNode::ReturnStmt { value: v.map(Box::new) }
}

fn call(callee: AstNode, args: Vec<AstNode>) -> AstNode {
    AstNode::FunctionCall { callee: Box::new(callee), args }
}

fn binop(op: Operator, l: AstNode, r: AstNode) -> AstNode {
    AstNode::BinaryOperation { op, left: Box::new(l), right: Box::new(r) }
}

fn op_of(ins: u32) -> u32 {
    ins & 0xff
}

fn a_of(ins: u32) -> u32 {
    (ins >> 8) & 0xff
}

fn b_of(ins: u32) -> u32 {
    (ins >> 16) & 0xff
}

fn c_of(ins: u32) -> u32 {
    (ins >> 24) & 0xff
}

fn bx_of(ins: u32) -> u32 {
    ins >> 16
}

fn code(c: &LucyCompiler) -> Vec<u32> {
    c.proto_stack.last().unwrap().code.clone()
}

fn compile(prog: Vec<AstNode>) -> (LucyCompiler, Result<(), CompileError>) {
    let mut c = LucyCompiler::new();
    let r = c.compile(&AstNode::Program(prog));
    (c, r)
}

fn type_error(r: &Result<(), CompileError>) -> String {
    match r {
        Err(CompileError::TypeError(m)) => m.clone(),
        other => panic!("expected a type error, got {:?}", other),
    }
}

#[test]
fn new_compiler_is_in_main() {
    let c = LucyCompiler::new();
    assert_eq!(c.proto_depth, 1);
    assert_eq!(c.proto_stack.len(), 1);
    assert_eq!(c.proto_stack[0].name, "__main__");
    assert_eq!(c.proto_stack[0].arity, 0);
    assert!(c.proto_stack[0].code.is_empty());
    assert_eq!(c.reg_alloc.current_top, 0);
    assert!(c.scopes.scopes.is_empty());
}

#[test]
fn empty_program_compiles_to_a_return() {
    let (c, r) = compile(vec![]);
    assert!(r.is_ok());
    let code = code(&c);
    assert_eq!(code.len(), 1);
    assert_eq!(op_of(code[0]), opcode_number(Opcode::RET));
    assert_eq!(code[0], 3);
}

#[test]
fn declaration_loads_its_constant() {
    // declare x = 5
    let (c, r) = compile(vec![declare("x", TypeNode::Inferred, Some(lit(5)))]);
    assert!(r.is_ok());
    let code = code(&c);
    assert_eq!(code.len(), 2);
    assert_eq!(op_of(code[0]), opcode_number(Opcode::LOADK));
    assert_eq!(a_of(code[0]), 0);
    assert_eq!(bx_of(code[0]), 0);
    assert!(matches!(c.proto_stack[0].constants[0], ConstantValue::I32(5)));
    assert_eq!(op_of(code[1]), opcode_number(Opcode::RET));
    // The program's scope is closed again: every register is free.
    assert_eq!(c.reg_alloc.current_top, 0);
}

#[test]
fn equal_constants_share_a_slot() {
    // declare x = 7  declare y = 7
    let (c, r) = compile(vec![
        declare("x", TypeNode::Inferred, Some(lit(7))),
        declare("y", TypeNode::Inferred, Some(lit(7))),
    ]);
    assert!(r.is_ok());
    assert_eq!(c.proto_stack[0].constants.len(), 1);
    let code = code(&c);
    assert_eq!(bx_of(code[0]), 0);
    assert_eq!(bx_of(code[1]), 0);
    assert_eq!(a_of(code[0]), 0);
    assert_eq!(a_of(code[1]), 1);
}

#[test]
fn add_constant_twice_gives_one_slot() {
    let mut c = LucyCompiler::new();
    let k1 = c.add_constant(ConstantValue::String("hi".to_string()));
    let k2 = c.add_constant(ConstantValue::String("hi".to_string()));
    let k3 = c.add_constant(ConstantValue::I32(1));
    assert_eq!(k1, 0);
    assert_eq!(k2, 0);
    assert_eq!(k3, 1);
    assert_eq!(c.proto_stack[0].constants.len(), 2);
}

#[test]
fn reading_a_variable_moves_it() {
    // declare x = 1  declare y = x
    let (c, r) = compile(vec![
        declare("x", TypeNode::Inferred, Some(lit(1))),
        declare("y", TypeNode::Inferred, Some(id("x"))),
    ]);
    assert!(r.is_ok());
    let code = code(&c);
    assert_eq!(op_of(code[1]), opcode_number(Opcode::MOVE));
    assert_eq!(a_of(code[1]), 1);
    assert_eq!(b_of(code[1]), 0);
}

#[test]
fn undefined_variable_is_a_type_error() {
    let (_, r) = compile(vec![declare("y", TypeNode::Inferred, Some(id("nope")))]);
    assert_eq!(type_error(&r), "undefined variable 'nope'");
}

#[test]
fn assignment_to_immutable_variable_is_rejected() {
    // declare x: i32 = 1   x = 2
    let (_, r) = compile(vec![
        declare("x", nominal("i32"), Some(lit(1))),
        AstNode::Assignment { left: Box::new(id("x")), right: Box::new(lit(2)) },
    ]);
    assert_eq!(type_error(&r), "cannot assign to immutable variable 'x'");
}

#[test]
fn assignment_to_mutable_variable_compiles() {
    // declare x: mut i32 = 1   x = 2
    let mut_i32 = TypeNode::Qualified { inner: Box::new(nominal("i32")), mutable: true, borrowed: false, moved: false };
    let (c, r) = compile(vec![
        declare("x", mut_i32, Some(lit(1))),
        AstNode::Assignment { left: Box::new(id("x")), right: Box::new(lit(2)) },
    ]);
    assert!(r.is_ok());
    let code = code(&c);
    assert_eq!(op_of(code[1]), opcode_number(Opcode::LOADK));
    assert_eq!(a_of(code[1]), 0);
    assert_eq!(bx_of(code[1]), 1);
}

#[test]
fn mismatched_initialiser_is_a_type_error() {
    // declare x: i32 = "s"
    let (_, r) = compile(vec![declare("x", nominal("i32"), Some(AstNode::StringLiteral("s".to_string())))]);
    assert_eq!(type_error(&r), "assignment to 'x': expected 'i32', got 'string'");
}

#[test]
fn function_declaration_and_automatic_main_call() {
    // fn main(): i32 return 1 end
    let (c, r) = compile(vec![function("main", vec![], nominal("i32"), vec![ret(Some(lit(1)))])]);
    assert!(r.is_ok());
    let main = &c.proto_stack[0];
    assert_eq!(main.protos.len(), 1);
    assert_eq!(main.protos[0].name, "main");
    assert_eq!(main.protos[0].arity, 0);
    let inner = &main.protos[0].code;
    // LOADK r0, k0 ; RET r0 1 ; RET 0 0 0
    assert_eq!(op_of(inner[0]), opcode_number(Opcode::LOADK));
    assert_eq!(op_of(inner[1]), opcode_number(Opcode::RET));
    assert_eq!(a_of(inner[1]), 0);
    assert_eq!(b_of(inner[1]), 1);
    assert_eq!(*inner.last().unwrap(), 3);
    let code = code(&c);
    // LOADK r0 <- proto 0 ; CALL r0 0 1 ; RET
    assert_eq!(op_of(code[0]), opcode_number(Opcode::LOADK));
    assert!(matches!(main.constants[0], ConstantValue::FunctionProto(0)));
    assert_eq!(op_of(code[1]), opcode_number(Opcode::CALL));
    assert_eq!(a_of(code[1]), 0);
    assert_eq!(b_of(code[1]), 0);
    assert_eq!(c_of(code[1]), 1);
    assert_eq!(code[2], 3);
}

#[test]
fn return_type_is_checked() {
    // fn f(): i32 return "s" end
    let (_, r) = compile(vec![function("f", vec![], nominal("i32"), vec![ret(Some(AstNode::StringLiteral("s".to_string())))])]);
    assert_eq!(type_error(&r), "return statement: expected 'i32', got 'string'");
}

#[test]
fn bare_return_needs_an_empty_return_type() {
    let (_, r) = compile(vec![function("f", vec![], nominal("i32"), vec![ret(None)])]);
    assert_eq!(type_error(&r), "bare return in function expecting 'i32'");
    let (c, r) = compile(vec![function("g", vec![], nominal("empty"), vec![ret(None)])]);
    assert!(r.is_ok());
    assert_eq!(c.proto_stack[0].protos[0].code[0], 3);
}

#[test]
fn parameters_need_a_type() {
    let (_, r) = compile(vec![function("f", vec![param("a", TypeNode::Inferred)], TypeNode::Inferred, vec![])]);
    assert_eq!(type_error(&r), "parameter 'a' of 'f' must have an explicit type");
}

#[test]
fn call_arguments_go_in_the_registers_after_the_callee() {
    // fn f(a: i32, b: i32): i32 return a + b end   declare r = f(1, 2)
    let body = vec![ret(Some(binop(Operator::Add, id("a"), id("b"))))];
    let (c, r) = compile(vec![
        function("f", vec![param("a", nominal("i32")), param("b", nominal("i32"))], nominal("i32"), body),
        declare("r", TypeNode::Inferred, Some(call(id("f"), vec![lit(1), lit(2)]))),
    ]);
    assert!(r.is_ok());
    let f = &c.proto_stack[0].protos[0];
    // ADD r2 <- r0 r1 inside f (registers after the two parameters)
    let add = f.code.iter().find(|i| op_of(**i) == opcode_number(Opcode::ADD)).copied().unwrap();
    assert_eq!(a_of(add), 2);
    assert_eq!(b_of(add), 3);
    assert_eq!(c_of(add), 4);
    let code = code(&c);
    let call_ins = code.iter().find(|i| op_of(**i) == opcode_number(Opcode::CALL)).copied().unwrap();
    assert_eq!(a_of(call_ins), 1);
    assert_eq!(b_of(call_ins), 2);
    assert_eq!(c_of(call_ins), 1);
}

#[test]
fn moved_variable_cannot_be_used_again() {
    // declare x = 1  declare y = ->x  declare z = x
    let (_, r) = compile(vec![
        declare("x", TypeNode::Inferred, Some(lit(1))),
        declare("y", TypeNode::Inferred, Some(AstNode::Moved(Box::new(id("x"))))),
        declare("z", TypeNode::Inferred, Some(id("x"))),
    ]);
    assert_eq!(type_error(&r), "use of moved variable 'x'");
}

#[test]
fn moving_twice_is_rejected() {
    let (_, r) = compile(vec![
        declare("x", TypeNode::Inferred, Some(lit(1))),
        declare("y", TypeNode::Inferred, Some(AstNode::Moved(Box::new(id("x"))))),
        declare("z", TypeNode::Inferred, Some(AstNode::Moved(Box::new(id("x"))))),
    ]);
    assert_eq!(type_error(&r), "use of already-moved variable 'x'");
}

fn point_class() -> AstNode {
    // class Point  x: i32  pub y: i32  pub fn get(self): i32 return self.x end  operator + (a: Point, b: Point): Point return a end end
    AstNode::ClassDefinition {
        name: "Point".to_string(),
        members: vec![
            ClassMember::Field { name: "x".to_string(), ty: nominal("i32"), is_public: false },
            ClassMember::Field { name: "y".to_string(), ty: nominal("i32"), is_public: true },
            ClassMember::Method {
                name: "get".to_string(),
                type_params: vec![],
                has_self: true,
                params: vec![],
                return_type: nominal("i32"),
                body: vec![ret(Some(AstNode::DotIndex { indexee: Box::new(AstNode::SelfExpr), index: Box::new(id("x")) }))],
                is_public: true,
            },
            ClassMember::OperatorOverload {
                op: Operator::Add,
                params: vec![param("a", nominal("Point")), param("b", nominal("Point"))],
                return_type: nominal("Point"),
                body: vec![ret(Some(id("a")))],
            },
        ],
    }
}

fn point_literal(x: i32, y: i32) -> AstNode {
    AstNode::ClassLiteral { ty: Box::new(id("Point")), fields: vec![("x".to_string(), lit(x)), ("y".to_string(), lit(y))] }
}

#[test]
fn class_definition_registers_type_and_prototypes() {
    let (c, r) = compile(vec![point_class()]);
    assert!(r.is_ok());
    assert_eq!(c.type_arena.classes.len(), 1);
    let class = &c.type_arena.classes[0];
    assert_eq!(class.name, "Point");
    assert_eq!(class.fields.len(), 2);
    let main = &c.proto_stack[0];
    assert_eq!(main.protos.len(), 2);
    assert_eq!(main.protos[0].name, "Point::get");
    assert_eq!(main.protos[0].arity, 1);
    assert_eq!(main.protos[1].name, "Point::operator@Add");
    assert_eq!(main.protos[1].arity, 2);
    match &class.class_proto_constant {
        Some(ConstantValue::ClassProto { name, fields, methods, operators }) => {
            assert_eq!(name, "Point");
            assert_eq!(fields, &vec![false, true]);
            assert_eq!(methods, &vec![(0, true)]);
            assert_eq!(operators, &vec![(Operator::Add, 1)]);
        }
        other => panic!("unexpected {:?}", other),
    }
}

#[test]
fn class_literal_sets_each_field() {
    let (c, r) = compile(vec![point_class(), declare("p", TypeNode::Inferred, Some(point_literal(1, 2)))]);
    assert!(r.is_ok());
    let code = code(&c);
    assert_eq!(op_of(code[0]), opcode_number(Opcode::NEWCLASS));
    let setfields: Vec<u32> = code.iter().copied().filter(|i| op_of(*i) == opcode_number(Opcode::SETFIELD)).collect();
    assert_eq!(setfields.len(), 2);
    assert_eq!(c_of(setfields[0]), 0);
    assert_eq!(c_of(setfields[1]), 1);
}

#[test]
fn unknown_field_in_literal_is_rejected() {
    let lit = AstNode::ClassLiteral { ty: Box::new(id("Point")), fields: vec![("z".to_string(), lit(1))] };
    let (_, r) = compile(vec![point_class(), declare("p", TypeNode::Inferred, Some(lit))]);
    assert_eq!(type_error(&r), "class 'Point' has no field 'z'");
}

#[test]
fn private_field_is_hidden_outside_the_class() {
    // declare p = Point{..}  declare v = p.x
    let get_x = AstNode::DotIndex { indexee: Box::new(id("p")), index: Box::new(id("x")) };
    let (_, r) = compile(vec![
        point_class(),
        declare("p", TypeNode::Inferred, Some(point_literal(1, 2))),
        declare("v", TypeNode::Inferred, Some(get_x)),
    ]);
    assert_eq!(type_error(&r), "field 'Point.x' is private");
}

#[test]
fn public_field_and_method_access() {
    let get_y = AstNode::DotIndex { indexee: Box::new(id("p")), index: Box::new(id("y")) };
    let get_m = call(AstNode::DotIndex { indexee: Box::new(id("p")), index: Box::new(id("get")) }, vec![]);
    let (c, r) = compile(vec![
        point_class(),
        declare("p", TypeNode::Inferred, Some(point_literal(1, 2))),
        declare("v", TypeNode::Inferred, Some(get_y)),
        declare("w", TypeNode::Inferred, Some(get_m)),
    ]);
    assert!(r.is_ok(), "{:?}", r);
    let code = code(&c);
    assert!(code.iter().any(|i| op_of(*i) == opcode_number(Opcode::GETFIELD) && c_of(*i) == 1));
    let call_ins = code.iter().find(|i| op_of(**i) == opcode_number(Opcode::CALL)).copied().unwrap();
    // a method call passes `self` as well
    assert_eq!(b_of(call_ins), 1);
    assert!(code.iter().any(|i| op_of(*i) == opcode_number(Opcode::GETMETHOD)));
}

#[test]
fn overloaded_operator_uses_the_overload_instruction() {
    let (c, r) = compile(vec![
        point_class(),
        declare("p", TypeNode::Inferred, Some(point_literal(1, 2))),
        declare("q", TypeNode::Inferred, Some(point_literal(3, 4))),
        declare("s", TypeNode::Inferred, Some(binop(Operator::Add, id("p"), id("q")))),
    ]);
    assert!(r.is_ok(), "{:?}", r);
    let code = code(&c);
    assert!(code.iter().any(|i| op_of(*i) == opcode_number(Opcode::ADDOV)));
    assert!(!code.iter().any(|i| op_of(*i) == opcode_number(Opcode::ADD)));
}

#[test]
fn operator_without_instruction_is_rejected() {
    let (_, r) = compile(vec![declare("b", TypeNode::Inferred, Some(binop(Operator::Eq, lit(1), lit(2))))]);
    assert_eq!(type_error(&r), "Unhandled operator Eq");
}

#[test]
fn arithmetic_on_integers_uses_plain_instructions() {
    let (c, r) = compile(vec![declare("v", TypeNode::Inferred, Some(binop(Operator::Mul, lit(6), lit(7))))]);
    assert!(r.is_ok());
    let code = code(&c);
    let mul = code.iter().find(|i| op_of(**i) == opcode_number(Opcode::MUL)).copied().unwrap();
    assert_eq!(a_of(mul), 0);
    assert_eq!(b_of(mul), 1);
    assert_eq!(c_of(mul), 2);
}

#[test]
fn native_library_functions_are_used_through_use() {
    // use io::{println}   println(1)
    let mut comp = LucyCompiler::new();
    comp.lulib_openlib("@std/io", |ns| ns.function("println", 1).function("read", 0));
    assert_eq!(comp.native_protos.len(), 2);
    assert_eq!(comp.native_protos[0].name, "println");
    assert_eq!(comp.native_protos[1].arity, 0);
    let prog = AstNode::Program(vec![
        AstNode::StaticImportStmt { namespace_alias: "io".to_string(), path: "@std/io".to_string() },
        AstNode::UseStmt { base_path: Box::new(id("io")), used: vec![("read".to_string(), "rd".to_string())] },
        call(id("rd"), vec![]),
    ]);
    let r = comp.compile(&prog);
    assert!(r.is_ok(), "{:?}", r);
    let main = &comp.proto_stack[0];
    assert!(matches!(main.constants[0], ConstantValue::NativeFunctionProto(1)));
    let code = code(&comp);
    assert_eq!(op_of(code[0]), opcode_number(Opcode::LOADK));
    assert!(code.iter().any(|i| op_of(*i) == opcode_number(Opcode::CALL)));
}

#[test]
fn missing_import_is_reported_by_path() {
    let prog = AstNode::Program(vec![AstNode::StaticImportStmt {
        namespace_alias: "m".to_string(),
        path: "./m.luc".to_string(),
    }]);
    let mut comp = LucyCompiler::new();
    match comp.compile(&prog) {
        Err(CompileError::MissingImport(p)) => assert_eq!(p, "./m.luc"),
        other => panic!("unexpected {:?}", other),
    }
}

#[test]
fn imported_file_exports_its_public_names() {
    let module = AstNode::Program(vec![
        AstNode::Public(Box::new(declare("answer", TypeNode::Inferred, Some(lit(42))))),
        declare("hidden", TypeNode::Inferred, Some(lit(1))),
    ]);
    let mut comp = LucyCompiler::new();
    assert!(comp.import_file("./m.luc", &module).is_ok());
    let ns = comp.file_namespaces.get(&"./m.luc".to_string()).unwrap();
    assert_eq!(ns.locals.get(&"answer".to_string()), Some(&(0usize, true)));
    assert!(ns.locals.get(&"hidden".to_string()).is_none());
    // The import's prototype is dropped; the main one is untouched.
    assert_eq!(comp.proto_stack.len(), 1);
    assert!(comp.proto_stack[0].code.is_empty());
    let prog = AstNode::Program(vec![AstNode::StaticImportStmt {
        namespace_alias: "m".to_string(),
        path: "./m.luc".to_string(),
    }]);
    assert!(comp.compile(&prog).is_ok());
}

#[test]
fn import_of_a_non_program_is_unsupported() {
    let mut comp = LucyCompiler::new();
    assert!(matches!(comp.import_file("x", &lit(1)), Err(CompileError::Unsupported(_))));
}

#[test]
fn unhandled_statements_are_unsupported() {
    let (_, r) = compile(vec![AstNode::WhileLoop { condition: Box::new(lit(1)), body: vec![] }]);
    assert!(matches!(r, Err(CompileError::Unsupported(_))));
}

#[test]
fn type_cast_loads_the_target_type() {
    let cast = AstNode::TypeCast { left: Box::new(lit(1)), right: nominal("u8") };
    let (c, r) = compile(vec![declare("v", TypeNode::Inferred, Some(cast))]);
    assert!(r.is_ok());
    let code = code(&c);
    let ty = code.iter().find(|i| op_of(**i) == opcode_number(Opcode::TYCAST)).copied().unwrap();
    assert_eq!(a_of(ty), 0);
    assert_eq!(b_of(ty), 1);
    assert!(matches!(&c.proto_stack[0].constants[c_of(ty) as usize], ConstantValue::Type(lib::ty::Type::U8)));
}

#[test]
fn self_outside_a_method_is_rejected() {
    let (_, r) = compile(vec![declare("v", TypeNode::Inferred, Some(AstNode::SelfExpr))]);
    assert_eq!(type_error(&r), "'self' used outside of a method");
}

#[test]
fn compiling_in_a_context_without_class() {
    let ctx = CompilingCtx::new();
    assert!(!ctx.is_public);
    assert!(ctx.current_class.is_none());
}

fn maker_class(is_public: bool) -> AstNode {
    // class Maker  [pub] fn make(): i32 return 7 end  end
    AstNode::ClassDefinition {
        name: "Maker".to_string(),
        members: vec![ClassMember::Method {
            name: "make".to_string(),
            type_params: vec![],
            has_self: false,
            params: vec![],
            return_type: nominal("i32"),
            body: vec![ret(Some(lit(7)))],
            is_public,
        }],
    }
}

fn maker_make() -> AstNode {
    AstNode::NamespaceIndex { indexee: Box::new(id("Maker")), index: Box::new(id("make")) }
}

#[test]
fn namespace_index_reads_a_static_method() {
    // The static method's name is bound, at register 0, in the scope that
    // holds the class; reading it into another register is one MOVE.
    let (c, r) = compile(vec![
        maker_class(true),
        declare("a", TypeNode::Inferred, Some(lit(5))),
        declare("f", TypeNode::Inferred, Some(maker_make())),
    ]);
    assert!(r.is_ok(), "{:?}", r);
    let code = code(&c);
    assert_eq!(code.len(), 3, "{:?}", code);
    assert_eq!(op_of(code[0]), opcode_number(Opcode::LOADK));
    assert_eq!(op_of(code[1]), opcode_number(Opcode::MOVE));
    assert_eq!(a_of(code[1]), 1);
    assert_eq!(b_of(code[1]), 0);
    assert_eq!(code[2], 3);
}

#[test]
fn private_static_method_is_hidden_outside_its_class() {
    let (_, r) = compile(vec![maker_class(false), declare("f", TypeNode::Inferred, Some(maker_make()))]);
    assert_eq!(type_error(&r), "method 'Maker::make' is private");
}

#[test]
fn namespace_index_of_unknown_name_is_unsupported() {
    let missing = AstNode::NamespaceIndex { indexee: Box::new(id("Maker")), index: Box::new(id("nope")) };
    let (_, r) = compile(vec![maker_class(true), declare("f", TypeNode::Inferred, Some(missing))]);
    assert!(matches!(r, Err(CompileError::Unsupported(_))), "{:?}", r);
    let unknown_ns = AstNode::NamespaceIndex { indexee: Box::new(id("Nowhere")), index: Box::new(id("make")) };
    let (_, r) = compile(vec![declare("f", TypeNode::Inferred, Some(unknown_ns))]);
    assert!(matches!(r, Err(CompileError::Unsupported(_))), "{:?}", r);
}

#[test]
fn class_fields_are_recorded_in_declaration_order() {
    let (c, r) = compile(vec![point_class()]);
    assert!(r.is_ok());
    let fields = &c.type_arena.classes[0].fields;
    assert_eq!(fields.len(), 2);
    assert_eq!(fields[0].0, "x");
    assert!(matches!(fields[0].1, lib::ty::Type::I32));
    assert!(!fields[0].2);
    assert_eq!(fields[1].0, "y");
    assert!(matches!(fields[1].1, lib::ty::Type::I32));
    assert!(fields[1].2);
}

#[test]
fn class_literal_needs_a_known_class() {
    let unknown = AstNode::ClassLiteral { ty: Box::new(id("Nope")), fields: vec![] };
    let (_, r) = compile(vec![declare("p", TypeNode::Inferred, Some(unknown))]);
    assert!(matches!(r, Err(CompileError::Unsupported(_))), "{:?}", r);
    let self_lit = AstNode::ClassLiteral { ty: Box::new(AstNode::SelfExpr), fields: vec![] };
    let (_, r) = compile(vec![declare("p", TypeNode::Inferred, Some(self_lit))]);
    assert_eq!(type_error(&r), "Self used outside of class");
    let borrowed = AstNode::ClassLiteral { ty: Box::new(AstNode::Borrowed(Box::new(id("Point")))), fields: vec![] };
    let (c, r) = compile(vec![point_class(), declare("p", TypeNode::Inferred, Some(borrowed))]);
    assert!(r.is_ok(), "{:?}", r);
    assert_eq!(op_of(code(&c)[0]), opcode_number(Opcode::NEWCLASS));
}

#[test]
fn static_method_cannot_be_fetched_from_an_instance() {
    // class Maker with a static `make`; an instance-style access is refused.
    let class = AstNode::ClassDefinition {
        name: "Maker".to_string(),
        members: vec![
            ClassMember::Field { name: "n".to_string(), ty: nominal("i32"), is_public: true },
            ClassMember::Method {
                name: "make".to_string(),
                type_params: vec![],
                has_self: false,
                params: vec![],
                return_type: nominal("i32"),
                body: vec![ret(Some(lit(7)))],
                is_public: true,
            },
        ],
    };
    let instance = AstNode::ClassLiteral { ty: Box::new(id("Maker")), fields: vec![("n".to_string(), lit(1))] };
    let access = AstNode::DotIndex { indexee: Box::new(id("m")), index: Box::new(id("make")) };
    let (_, r) = compile(vec![
        class,
        declare("m", TypeNode::Inferred, Some(instance)),
        declare("f", TypeNode::Inferred, Some(access)),
    ]);
    assert_eq!(
        type_error(&r),
        "'Maker::make' is a static function and cannot be called on an instance; use 'Maker::make(...)' instead"
    );
}

#[test]
fn field_read_uses_the_object_register_and_field_index() {
    // p at r0; v = p.y: the object goes to r2 (after v's r1), then GETFIELD r1 r2 1.
    let get_y = AstNode::DotIndex { indexee: Box::new(id("p")), index: Box::new(id("y")) };
    let (c, r) = compile(vec![
        point_class(),
        declare("p", TypeNode::Inferred, Some(point_literal(1, 2))),
        declare("v", TypeNode::Inferred, Some(get_y)),
    ]);
    assert!(r.is_ok(), "{:?}", r);
    let code = code(&c);
    let get = code[code.len() - 2];
    assert_eq!(op_of(get), opcode_number(Opcode::GETFIELD));
    assert_eq!(a_of(get), 1);
    assert_eq!(b_of(get), 2);
    assert_eq!(c_of(get), 1);
    let bad = AstNode::DotIndex { indexee: Box::new(id("p")), index: Box::new(lit(1)) };
    let (_, r) = compile(vec![
        point_class(),
        declare("p", TypeNode::Inferred, Some(point_literal(1, 2))),
        declare("v", TypeNode::Inferred, Some(bad)),
    ]);
    assert!(matches!(r, Err(CompileError::Unsupported(_))), "{:?}", r);
}

fn qualified(borrowed: bool, moved: bool) -> TypeNode {
    TypeNode::Qualified { inner: Box::new(nominal("i32")), mutable: false, borrowed, moved }
}

#[test]
fn owning_parameter_needs_an_explicit_move() {
    let f = function("take", vec![param("a", qualified(false, true))], nominal("empty"), vec![]);
    let (_, r) = compile(vec![
        f,
        declare("x", TypeNode::Inferred, Some(lit(1))),
        call(id("take"), vec![id("x")]),
    ]);
    assert_eq!(type_error(&r), "variable 'x' must be explicitly moved (use '->x')");
    let f = function("take", vec![param("a", qualified(false, true))], nominal("empty"), vec![]);
    let (_, r) = compile(vec![
        f,
        declare("x", TypeNode::Inferred, Some(lit(1))),
        call(id("take"), vec![AstNode::Moved(Box::new(id("x")))]),
    ]);
    assert!(r.is_ok(), "{:?}", r);
}

#[test]
fn borrowing_parameter_needs_an_explicit_borrow() {
    let f = function("look", vec![param("a", qualified(true, false))], nominal("empty"), vec![]);
    let (_, r) = compile(vec![
        f,
        declare("x", TypeNode::Inferred, Some(lit(1))),
        call(id("look"), vec![id("x")]),
    ]);
    assert_eq!(type_error(&r), "variable 'x' must be explicitly borrowed (use '&x')");
    let f = function("look", vec![param("a", qualified(true, false))], nominal("empty"), vec![]);
    let (_, r) = compile(vec![
        f,
        declare("x", TypeNode::Inferred, Some(lit(1))),
        call(id("look"), vec![AstNode::Borrowed(Box::new(id("x")))]),
        call(id("look"), vec![lit(2)]),
    ]);
    assert!(r.is_ok(), "{:?}", r);
}

#[test]
fn overload_is_chosen_by_the_operands_classes() {
    // Point overloads only `+`: `p - q` is a plain subtraction.
    let (c, r) = compile(vec![
        point_class(),
        declare("p", TypeNode::Inferred, Some(point_literal(1, 2))),
        declare("q", TypeNode::Inferred, Some(point_literal(3, 4))),
        declare("s", TypeNode::Inferred, Some(binop(Operator::Sub, id("p"), id("q")))),
    ]);
    assert!(r.is_ok(), "{:?}", r);
    let code = code(&c);
    let sub = code[code.len() - 2];
    assert_eq!(op_of(sub), opcode_number(Opcode::SUB));
    assert_eq!((a_of(sub), b_of(sub), c_of(sub)), (2, 3, 4));
    // With the class on the right only, its overload is used and checked.
    let (_, r) = compile(vec![
        point_class(),
        declare("q", TypeNode::Inferred, Some(point_literal(3, 4))),
        declare("s", TypeNode::Inferred, Some(binop(Operator::Add, lit(1), id("q")))),
    ]);
    assert!(type_error(&r).starts_with("lhs of operator 'Add'"), "{:?}", r);
}

#[test]
fn assignment_checks_the_value_type() {
    // declare x: mut i32 = 1   x = "s"
    let mut_i32 = TypeNode::Qualified { inner: Box::new(nominal("i32")), mutable: true, borrowed: false, moved: false };
    let (_, r) = compile(vec![
        declare("x", mut_i32, Some(lit(1))),
        AstNode::Assignment { left: Box::new(id("x")), right: Box::new(AstNode::StringLiteral("s".to_string())) },
    ]);
    let msg = type_error(&r);
    assert!(msg.starts_with("assignment to 'x': expected '"), "{}", msg);
    assert!(msg.ends_with("', got 'string'"), "{}", msg);
}

#[test]
fn returned_value_goes_through_the_first_free_register() {
    // fn f(a: i32): i32 return a end: the value is moved to r1 and returned from there.
    let (c, r) = compile(vec![function("f", vec![param("a", nominal("i32"))], nominal("i32"), vec![ret(Some(id("a")))])]);
    assert!(r.is_ok(), "{:?}", r);
    let f = &c.proto_stack[0].protos[0].code;
    assert_eq!(op_of(f[0]), opcode_number(Opcode::MOVE));
    assert_eq!((a_of(f[0]), b_of(f[0])), (1, 0));
    assert_eq!(op_of(f[1]), opcode_number(Opcode::RET));
    assert_eq!((a_of(f[1]), b_of(f[1]), c_of(f[1])), (1, 1, 0));
}

#[test]
fn class_method_table_records_visibility() {
    let (c, r) = compile(vec![maker_class(false)]);
    assert!(r.is_ok(), "{:?}", r);
    let class = &c.type_arena.classes[0];
    let entry = class.methods.get(&"make".to_string()).unwrap();
    assert!(!entry.3);
    assert!(class.methods.get(&"other".to_string()).is_none());
    let (c, r) = compile(vec![point_class()]);
    assert!(r.is_ok(), "{:?}", r);
    assert!(c.type_arena.classes[0].methods.get(&"get".to_string()).unwrap().3);
}

#[test]
fn use_needs_a_known_namespace_and_names() {
    let mut comp = LucyCompiler::new();
    comp.lulib_openlib("@std/io", |ns| ns.function("println", 1));
    let missing_name = AstNode::Program(vec![
        AstNode::StaticImportStmt { namespace_alias: "io".to_string(), path: "@std/io".to_string() },
        AstNode::UseStmt { base_path: Box::new(id("io")), used: vec![("nope".to_string(), "nope".to_string())] },
    ]);
    assert!(matches!(comp.compile(&missing_name), Err(CompileError::Unsupported(_))));
    let mut comp = LucyCompiler::new();
    let missing_ns = AstNode::Program(vec![AstNode::UseStmt {
        base_path: Box::new(id("io")),
        used: vec![("println".to_string(), "println".to_string())],
    }]);
    assert!(matches!(comp.compile(&missing_ns), Err(CompileError::Unsupported(_))));
}

#[test]
fn class_operator_table_has_each_overloaded_operator_once() {
    let (c, r) = compile(vec![point_class()]);
    assert!(r.is_ok(), "{:?}", r);
    let ops = &c.type_arena.classes[0].operators;
    assert_eq!(ops.len(), 1);
    assert_eq!(ops[0].0, Operator::Add);
    assert_eq!(ops[0].1, 1);
    assert_eq!(ops[0].2.params.len(), 2);
}

#[test]
fn expressions_on_plain_operands_compile() {
    // A cast of a literal, arithmetic on literals, a field read on a
    // non-class value and a call with literal arguments all compile.
    let cast = AstNode::TypeCast { left: Box::new(lit(1)), right: nominal("u8") };
    let sum = binop(Operator::Add, lit(1), lit(2));
    let dot = AstNode::DotIndex { indexee: Box::new(lit(3)), index: Box::new(id("len")) };
    let (c, r) = compile(vec![
        declare("a", TypeNode::Inferred, Some(cast)),
        declare("b", TypeNode::Inferred, Some(sum)),
        declare("d", TypeNode::Inferred, Some(dot)),
        call(id("a"), vec![lit(4), AstNode::StringLiteral("s".to_string())]),
    ]);
    assert!(r.is_ok(), "{:?}", r);
    let code = code(&c);
    let call_ins = code[code.len() - 2];
    assert_eq!(op_of(call_ins), opcode_number(Opcode::CALL));
    assert_eq!(b_of(call_ins), 2);
}

#[test]
fn declaration_with_literal_checks_the_annotation() {
    let (_, r) = compile(vec![declare("x", nominal("string"), Some(lit(1)))]);
    assert_eq!(type_error(&r), "assignment to 'x': expected 'string', got 'i32'");
    let (_, r) = compile(vec![declare("x", nominal("i32"), None)]);
    assert!(r.is_ok());
    let bad = AstNode::VarDeclaration {
        binding: BindingNode::OrderedBinding { bindings: vec![] },
        init_value: None,
    };
    let (_, r) = compile(vec![bad]);
    assert!(r.is_err());
}

#[test]
fn empty_function_and_field_only_class_compile() {
    let (c, r) = compile(vec![
        function("f", vec![param("a", nominal("i32"))], TypeNode::Inferred, vec![]),
        AstNode::ClassDefinition {
            name: "P".to_string(),
            members: vec![ClassMember::Field { name: "x".to_string(), ty: nominal("i32"), is_public: true }],
        },
    ]);
    assert!(r.is_ok(), "{:?}", r);
    assert_eq!(c.proto_stack[0].protos[0].code, vec![3]);
    assert_eq!(c.type_arena.classes[0].fields.len(), 1);
}

#[test]
fn empty_file_imports_an_empty_namespace() {
    let mut comp = LucyCompiler::new();
    assert!(comp.import_file("./e.luc", &AstNode::Program(vec![])).is_ok());
    let ns = comp.file_namespaces.get(&"./e.luc".to_string()).unwrap();
    assert!(ns.locals.get(&"x".to_string()).is_none());
    assert!(ns.children.is_empty());
    assert_eq!(comp.native_protos.len(), 0);
}

#[test]
fn class_records_field_indices_and_member_prototypes() {
    let members = vec![
        ClassMember::Field { name: "x".to_string(), ty: nominal("i32"), is_public: true },
        ClassMember::Field { name: "y".to_string(), ty: nominal("bool"), is_public: false },
        ClassMember::Method {
            name: "get".to_string(),
            type_params: vec![],
            has_self: true,
            params: vec![],
            return_type: nominal("i32"),
            body: vec![],
            is_public: true,
        },
    ];
    let (c, r) = compile(vec![AstNode::ClassDefinition { name: "P".to_string(), members }]);
    assert!(r.is_ok(), "{:?}", r);
    let k = &c.type_arena.classes[0];
    assert_eq!(k.field_index_map.get(&"x".to_string()), Some(&0));
    assert_eq!(k.field_index_map.get(&"y".to_string()), Some(&1));
    assert!(matches!(k.fields[1].1, lib::ty::Type::Bool));
    match &k.class_proto_constant {
        Some(ConstantValue::ClassProto { name, fields, methods, operators }) => {
            assert_eq!(name, "P");
            assert_eq!(fields, &vec![true, false]);
            assert_eq!(methods, &vec![(0, true)]);
            assert!(operators.is_empty());
        }
        other => panic!("unexpected {:?}", other),
    }
    let protos = &c.proto_stack[0].protos;
    assert_eq!(protos.len(), 1);
    assert_eq!(protos[0].name, "P::get");
}

#[test]
fn use_with_known_names_and_assignment_of_plain_values_compile() {
    let mut comp = LucyCompiler::new();
    comp.lulib_openlib("@std/io", |ns| ns.function("println", 1));
    let mut_i32 = TypeNode::Qualified { inner: Box::new(nominal("i32")), mutable: true, borrowed: false, moved: false };
    let prog = AstNode::Program(vec![
        AstNode::StaticImportStmt { namespace_alias: "io".to_string(), path: "@std/io".to_string() },
        AstNode::UseStmt { base_path: Box::new(id("io")), used: vec![("println".to_string(), "p".to_string())] },
        declare("x", mut_i32, Some(lit(1))),
        declare("y", nominal("i32"), Some(lit(2))),
        AstNode::Assignment { left: Box::new(id("x")), right: Box::new(id("y")) },
    ]);
    assert!(comp.compile(&prog).is_ok());
    let code = &comp.proto_stack[0].code;
    // the assignment reads y (r2) into x (r1)
    let mv = code[code.len() - 2];
    assert_eq!(op_of(mv), opcode_number(Opcode::MOVE));
    assert_eq!((a_of(mv), b_of(mv)), (1, 2));
}

#[test]
fn refused_assignments_say_why() {
    let (_, r) = compile(vec![AstNode::Assignment { left: Box::new(id("nope")), right: Box::new(lit(1)) }]);
    assert_eq!(type_error(&r), "undefined variable 'nope'");
    let body = vec![AstNode::Assignment { left: Box::new(id("x")), right: Box::new(lit(2)) }];
    let mut_i32 = TypeNode::Qualified { inner: Box::new(nominal("i32")), mutable: true, borrowed: false, moved: false };
    let (_, r) = compile(vec![declare("x", mut_i32, Some(lit(1))), function("f", vec![], nominal("empty"), body)]);
    assert_eq!(type_error(&r), "cannot assign to variable captured from outer scope");
}

#[test]
fn method_table_counts_operators_between_methods() {
    let method = |name: &str, is_public: bool| ClassMember::Method {
        name: name.to_string(),
        type_params: vec![],
        has_self: false,
        params: vec![],
        return_type: nominal("i32"),
        body: vec![],
        is_public,
    };
    let members = vec![
        method("a", false),
        ClassMember::OperatorOverload { op: Operator::Mul, params: vec![], return_type: nominal("i32"), body: vec![] },
        method("b", true),
    ];
    let mut c = LucyCompiler::new();
    c.enter_scope();
    assert!(c.compile_class_definition(&"Q".to_string(), &members, &CompilingCtx::new()).is_ok());
    match &c.type_arena.classes[0].class_proto_constant {
        Some(ConstantValue::ClassProto { methods, operators, .. }) => {
            assert_eq!(methods, &vec![(0, false), (2, true)]);
            assert_eq!(operators, &vec![(Operator::Mul, 1)]);
        }
        other => panic!("unexpected {:?}", other),
    }
    let names: Vec<&str> = c.proto_stack[0].protos.iter().map(|p| p.name.as_str()).collect();
    assert_eq!(names, vec!["Q::a", "Q::operator@Mul", "Q::b"]);
}

#[test]
fn declarations_with_fitting_literals_compile_as_program_and_import() {
    let decls = || {
        vec![
            declare("a", nominal("i32"), Some(lit(1))),
            declare("b", nominal("string"), Some(AstNode::StringLiteral("x".to_string()))),
            declare("c", TypeNode::Inferred, Some(lit(3))),
        ]
    };
    let (c, r) = compile(decls());
    assert!(r.is_ok(), "{:?}", r);
    assert_eq!(c.reg_alloc.current_top, 0);
    let mut comp = LucyCompiler::new();
    assert!(comp.import_file("lib/decls", &AstNode::Program(decls())).is_ok());
    assert!(comp.file_namespaces.get(&"lib/decls".to_string()).is_some());
}

#[test]
fn literal_of_the_wrong_type_for_a_field_is_rejected() {
    let lit = AstNode::ClassLiteral {
        ty: Box::new(id("Point")),
        fields: vec![("x".to_string(), AstNode::StringLiteral("no".to_string()))],
    };
    let (_, r) = compile(vec![point_class(), declare("p", TypeNode::Inferred, Some(lit))]);
    assert!(matches!(r, Err(CompileError::TypeError(_))));
}

#[test]
fn class_literal_loads_each_value_above_the_object_and_stores_it() {
    let (c, r) = compile(vec![point_class(), declare("p", TypeNode::Inferred, Some(point_literal(7, 9)))]);
    assert!(r.is_ok());
    let main = &c.proto_stack[0];
    let slot = |n: i32| main.constants.iter().position(|k| matches!(k, ConstantValue::I32(v) if *v == n)).unwrap() as u32;
    let code = code(&c);
    assert_eq!(op_of(code[0]), opcode_number(Opcode::NEWCLASS));
    assert_eq!(a_of(code[0]), 0);
    let rest: Vec<(u32, u32)> = code[1..5].iter().map(|i| (op_of(*i), a_of(*i))).collect();
    assert_eq!(
        rest,
        vec![
            (opcode_number(Opcode::LOADK), 1),
            (opcode_number(Opcode::SETFIELD), 0),
            (opcode_number(Opcode::LOADK), 1),
            (opcode_number(Opcode::SETFIELD), 0)
        ]
    );
    assert_eq!((b_of(code[2]), b_of(code[4])), (1, 1));
    assert_eq!(bx_of(code[1]), slot(7));
    assert_eq!(c_of(code[2]), 0);
    assert_eq!(bx_of(code[3]), slot(9));
    assert_eq!(c_of(code[4]), 1);
}

fn pack_abx(op: Opcode, a: u32, bx: u32) -> u32 {
    lib::bytecode::pack_abx(opcode_number(op), a, bx)
}

fn pack_abc(op: Opcode, a: u32, b: u32, c: u32) -> u32 {
    lib::bytecode::pack_abc(opcode_number(op), a, b, c)
}

#[test]
fn use_binds_the_native_function_of_the_namespace_entry() {
    let mut c = LucyCompiler::new();
    c.lulib_openlib("@std/io", |ns| ns.function("print", 1).function("println", 1));
    c.enter_scope();
    let ctx = CompilingCtx::new();
    let import = AstNode::StaticImportStmt { namespace_alias: "io".to_string(), path: "@std/io".to_string() };
    assert!(c.compile_stmt(&import, &ctx).is_ok());
    let use_stmt = AstNode::UseStmt { base_path: Box::new(id("io")), used: vec![("println".to_string(), "p".to_string())] };
    assert!(c.compile_stmt(&use_stmt, &ctx).is_ok());
    match c.scopes.resolve_local(&"p".to_string(), 1) {
        Some(lib::scope::LocalResolution::Local { reg, backing, mutable, moved, .. }) => {
            assert_eq!(reg, 0);
            assert!(matches!(backing, Some(ConstantValue::NativeFunctionProto(1))));
            assert!(!mutable && !moved);
        }
        other => panic!("unexpected {:?}", other),
    }
    assert!(matches!(c.proto_stack[0].constants.as_slice(), [ConstantValue::NativeFunctionProto(1)]));
    assert_eq!(c.proto_stack[0].code, vec![pack_abx(Opcode::LOADK, 0, 0)]);
    assert_eq!(c.reg_alloc.current_top, 1);
}

#[test]
fn declaration_without_initialiser_emits_nothing_and_assignment_loads() {
    let mut c = LucyCompiler::new();
    c.enter_scope();
    let ctx = CompilingCtx::new();
    let mut_i32 = TypeNode::Qualified { inner: Box::new(nominal("i32")), mutable: true, borrowed: false, moved: false };
    assert!(c.compile_stmt(&declare("x", mut_i32, None), &ctx).is_ok());
    assert!(c.proto_stack[0].code.is_empty());
    let assign = AstNode::Assignment { left: Box::new(id("x")), right: Box::new(lit(5)) };
    assert!(c.compile_stmt(&assign, &ctx).is_ok());
    assert_eq!(c.proto_stack[0].code, vec![pack_abx(Opcode::LOADK, 0, 0)]);
    assert!(matches!(c.proto_stack[0].constants.as_slice(), [ConstantValue::I32(5)]));
    assert_eq!(c.reg_alloc.current_top, 1);
    match c.scopes.resolve_local(&"x".to_string(), 1) {
        Some(lib::scope::LocalResolution::Local { reg, backing, mutable, moved, .. }) => {
            assert_eq!(reg, 0);
            assert!(backing.is_none() && mutable && !moved);
        }
        other => panic!("unexpected {:?}", other),
    }
}

#[test]
fn declaring_a_function_loads_its_prototype_constant() {
    let mut c = LucyCompiler::new();
    c.enter_scope();
    let (dst, idx, ft) =
        c.compile_function_decl(&"f".to_string(), &vec![], &TypeNode::Inferred, &vec![], false, &CompilingCtx::new()).unwrap();
    assert_eq!((dst, idx), (0, 0));
    assert!(ft.params.is_empty());
    let m = &c.proto_stack[0];
    assert_eq!(m.code, vec![pack_abx(Opcode::LOADK, 0, 0)]);
    assert!(matches!(m.constants.as_slice(), [ConstantValue::FunctionProto(0)]));
    assert_eq!(m.protos[0].code, vec![pack_abc(Opcode::RET, 0, 0, 0)]);
    assert_eq!(c.reg_alloc.current_top, 1);
}

#[test]
fn program_declaring_main_calls_it() {
    let mut c = LucyCompiler::new();
    let p = AstNode::Program(vec![function("main", vec![], TypeNode::Inferred, vec![])]);
    assert!(c.compile_stmt(&p, &CompilingCtx::new()).is_ok());
    let m = &c.proto_stack[0];
    assert_eq!(m.code, vec![pack_abx(Opcode::LOADK, 0, 0), pack_abc(Opcode::CALL, 0, 0, 1)]);
    assert!(matches!(m.constants.as_slice(), [ConstantValue::FunctionProto(0)]));
    assert_eq!(m.protos[0].name, "main");
    assert!(c.scopes.scopes.is_empty());
    assert_eq!(c.reg_alloc.current_top, 0);
}

#[test]
fn library_keeps_the_native_functions_it_registers() {
    let mut c = LucyCompiler::new();
    c.lulib_openlib("@a", |b| b.function("f", 0));
    c.lulib_openlib("@b", |b| b.function("g", 2));
    assert_eq!(c.native_protos.len(), 2);
    assert_eq!(c.native_protos[1].name, "g");
    assert_eq!(c.native_protos[1].arity, 2);
    c.enter_scope();
    c.lulib_register_namespace("h", |b| b.function("k", 1));
    assert_eq!(c.native_protos.len(), 3);
    assert_eq!(c.native_namespaces.len(), 2);
    assert_eq!(c.proto_stack.len(), 1);
}

#[test]
fn class_binds_a_namespace_of_its_methods_and_an_operator_table() {
    let members = vec![
        ClassMember::Method {
            name: "get".to_string(),
            type_params: vec![],
            has_self: true,
            params: vec![],
            return_type: nominal("i32"),
            body: vec![],
            is_public: true,
        },
        ClassMember::OperatorOverload { op: Operator::Add, params: vec![], return_type: nominal("i32"), body: vec![] },
        ClassMember::OperatorOverload { op: Operator::Add, params: vec![], return_type: nominal("i32"), body: vec![] },
    ];
    let mut c = LucyCompiler::new();
    c.enter_scope();
    assert!(c.compile_class_definition(&"P".to_string(), &members, &CompilingCtx::new()).is_ok());
    let ns = LucyCompiler::find_namespace_in_scopes(&c.scopes, &"P".to_string()).unwrap();
    assert_eq!(ns.locals.get(&"get".to_string()), Some(&(0usize, true)));
    assert_eq!(ns.locals.len(), 1);
    match &c.type_arena.classes[0].class_proto_constant {
        Some(ConstantValue::ClassProto { operators, .. }) => assert_eq!(operators, &vec![(Operator::Add, 2)]),
        other => panic!("unexpected {:?}", other),
    }
    assert_eq!(c.proto_stack[0].protos[0].arity, 1);
}

#[test]
fn imported_file_exports_its_public_declarations() {
    let mut c = LucyCompiler::new();
    let prog = AstNode::Program(vec![
        declare("a", nominal("i32"), Some(lit(1))),
        AstNode::Public(Box::new(declare("b", nominal("i32"), Some(lit(2))))),
    ]);
    assert!(c.import_file("./m.luc", &prog).is_ok());
    let ns = c.file_namespaces.get(&"./m.luc".to_string()).unwrap();
    assert_eq!(ns.locals.get(&"b".to_string()), Some(&(1usize, true)));
    assert!(ns.locals.get(&"a".to_string()).is_none());
}

#[test]
fn method_is_bound_as_class_qualified_local_with_its_arity() {
    let members = vec![
        ClassMember::Field { name: "x".to_string(), ty: nominal("i32"), is_public: true },
        ClassMember::Field { name: "y".to_string(), ty: nominal("bool"), is_public: false },
        ClassMember::Method {
            name: "get".to_string(),
            type_params: vec![],
            has_self: true,
            params: vec![],
            return_type: nominal("i32"),
            body: vec![],
            is_public: true,
        },
    ];
    let mut c = LucyCompiler::new();
    c.enter_scope();
    assert!(c.compile_class_definition(&"P".to_string(), &members, &CompilingCtx::new()).is_ok());
    assert_eq!(c.proto_stack[0].protos.len(), 1);
    assert_eq!(c.proto_stack[0].protos[0].name, "P::get");
    assert_eq!(c.proto_stack[0].protos[0].arity, 1);
    let ns = LucyCompiler::find_namespace_in_scopes(&c.scopes, &"P".to_string()).unwrap();
    assert_eq!(ns.locals.get(&"get".to_string()), Some(&(0usize, true)));
    match c.scopes.resolve_local(&"P::get".to_string(), 1) {
        Some(lib::scope::LocalResolution::Local { reg, ty, backing, mutable, moved }) => {
            assert_eq!(reg, 0);
            assert!(matches!(backing, Some(ConstantValue::FunctionProto(0))));
            assert!(!mutable && !moved);
            match ty {
                lib::ty::Type::Function(ft) => {
                    assert_eq!(ft.params.len(), 1);
                    assert!(matches!(ft.params[0], lib::ty::Type::Class(_)));
                    assert!(matches!(*ft.return_type, lib::ty::Type::I32));
                }
                other => panic!("unexpected {:?}", other),
            }
        }
        other => panic!("unexpected {:?}", other),
    }
}
