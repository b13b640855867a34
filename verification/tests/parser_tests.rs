use lib::operator::Operator;
use lib::parser::{get_bp, LucyParser};
use lib::syntax::{AstNode, BindingNode, ClassMember, TypeNode};
use lib::token::{Sym, Token};

fn ident(s: &str) -> Token {
    Token::IDENT(s.to_string())
}

fn parse(tokens: Vec<Token>) -> Option<AstNode> {
    LucyParser::new(tokens).try_parse_file_source()
}

fn program(tokens: Vec<Token>) -> Vec<AstNode> {
    match parse(tokens) {
        Some(AstNode::Program(stmts)) => stmts,
        other => panic!("not a program: {:?}", other),
    }
}

fn is_ident(node: &AstNode, name: &str) -> bool {
    matches!(node, AstNode::Identifier(s) if s == name)
}

fn is_int(node: &AstNode, n: i32) -> bool {
    matches!(node, AstNode::IntLiteral(m) if *m == n)
}

#[test]
fn empty_token_list_is_an_empty_program() {
    assert!(program(vec![]).is_empty());
}

#[test]
fn declaration_with_type_and_initialiser() {
    // declare x: i32 = 1 + 2 * 3
    let stmts = program(vec![
        Token::DECLARE,
        ident("x"),
        Token::PUNCT(':'),
        ident("i32"),
        Token::BINOP(Sym::Assign),
        Token::INT(1),
        Token::BINOP(Sym::Plus),
        Token::INT(2),
        Token::BINOP(Sym::Star),
        Token::INT(3),
    ]);
    assert_eq!(stmts.len(), 1);
    match &stmts[0] {
        AstNode::VarDeclaration { binding, init_value } => {
            match binding {
                BindingNode::IdentifierBinding { name, ty } => {
                    assert_eq!(name, "x");
                    match ty {
                        TypeNode::NominalType { name, generics } => {
                            assert_eq!(name, "i32");
                            assert!(generics.is_empty());
                        }
                        other => panic!("unexpected type {:?}", other),
                    }
                }
                other => panic!("unexpected binding {:?}", other),
            }
            match init_value.as_deref() {
                Some(AstNode::BinaryOperation { op: Operator::Add, left, right }) => {
                    assert!(is_int(left, 1));
                    match right.as_ref() {
                        AstNode::BinaryOperation { op: Operator::Mul, left, right } => {
                            assert!(is_int(left, 2));
                            assert!(is_int(right, 3));
                        }
                        other => panic!("unexpected {:?}", other),
                    }
                }
                other => panic!("unexpected {:?}", other),
            }
        }
        other => panic!("unexpected {:?}", other),
    }
}

#[test]
fn multiplication_binds_tighter_on_the_left_too() {
    // 1 * 2 + 3
    let stmts = program(vec![Token::INT(1), Token::BINOP(Sym::Star), Token::INT(2), Token::BINOP(Sym::Plus), Token::INT(3)]);
    match &stmts[0] {
        AstNode::BinaryOperation { op: Operator::Add, left, right } => {
            assert!(matches!(left.as_ref(), AstNode::BinaryOperation { op: Operator::Mul, .. }));
            assert!(is_int(right, 3));
        }
        other => panic!("unexpected {:?}", other),
    }
}

#[test]
fn subtraction_is_left_associative() {
    // 5 - 2 - 1 parses as (5 - 2) - 1
    let stmts = program(vec![Token::INT(5), Token::BINOP(Sym::Minus), Token::INT(2), Token::BINOP(Sym::Minus), Token::INT(1)]);
    match &stmts[0] {
        AstNode::BinaryOperation { op: Operator::Sub, left, right } => {
            assert!(matches!(left.as_ref(), AstNode::BinaryOperation { op: Operator::Sub, .. }));
            assert!(is_int(right, 1));
        }
        other => panic!("unexpected {:?}", other),
    }
}

#[test]
fn binding_powers() {
    assert_eq!(get_bp(&Token::BINOP(Sym::OrOr)), Some(2));
    assert_eq!(get_bp(&Token::BINOP(Sym::AndAnd)), Some(3));
    assert_eq!(get_bp(&Token::BINOP(Sym::Plus)), Some(10));
    assert_eq!(get_bp(&Token::BINOP(Sym::Star)), Some(20));
    assert_eq!(get_bp(&Token::BINOP(Sym::Caret)), Some(25));
    assert_eq!(get_bp(&Token::AS), Some(30));
    assert_eq!(get_bp(&Token::INT(1)), None);
    assert!(get_bp(&Token::BINOP(Sym::Star)) > get_bp(&Token::BINOP(Sym::Plus)));
}

#[test]
fn cast_with_as() {
    // x as u8  0   (a type name needs a token after it)
    let stmts = program(vec![ident("x"), Token::AS, ident("u8"), Token::INT(0)]);
    assert_eq!(stmts.len(), 2);
    match &stmts[0] {
        AstNode::TypeCast { left, right } => {
            assert!(is_ident(left, "x"));
            assert!(matches!(right, TypeNode::NominalType { name, .. } if name == "u8"));
        }
        other => panic!("unexpected {:?}", other),
    }
}

#[test]
fn function_declaration() {
    // fn add(a: i32, b: i32): i32 return a + b end
    let stmts = program(vec![
        Token::FN,
        ident("add"),
        Token::PAREN('('),
        ident("a"),
        Token::PUNCT(':'),
        ident("i32"),
        Token::PUNCT(','),
        ident("b"),
        Token::PUNCT(':'),
        ident("i32"),
        Token::PAREN(')'),
        Token::PUNCT(':'),
        ident("i32"),
        Token::RETURN,
        ident("a"),
        Token::BINOP(Sym::Plus),
        ident("b"),
        Token::END,
    ]);
    assert_eq!(stmts.len(), 1);
    match &stmts[0] {
        AstNode::FunctionDeclaration { name, params, return_type, body, type_params } => {
            assert_eq!(name, "add");
            assert!(type_params.is_empty());
            assert_eq!(params.len(), 2);
            assert!(matches!(&params[1], BindingNode::IdentifierBinding { name, .. } if name == "b"));
            assert!(matches!(return_type, TypeNode::NominalType { name, .. } if name == "i32"));
            assert_eq!(body.len(), 1);
            match &body[0] {
                AstNode::ReturnStmt { value: Some(v) } => {
                    assert!(matches!(v.as_ref(), AstNode::BinaryOperation { op: Operator::Add, .. }));
                }
                other => panic!("unexpected {:?}", other),
            }
        }
        other => panic!("unexpected {:?}", other),
    }
}

#[test]
fn qualified_parameter_type() {
    // fn f(a: mut &i32) end
    let stmts = program(vec![
        Token::FN,
        ident("f"),
        Token::PAREN('('),
        ident("a"),
        Token::PUNCT(':'),
        Token::MUTABLE,
        Token::AND,
        ident("i32"),
        Token::PAREN(')'),
        Token::END,
    ]);
    match &stmts[0] {
        AstNode::FunctionDeclaration { params, return_type, .. } => {
            assert!(matches!(return_type, TypeNode::Inferred));
            match &params[0] {
                BindingNode::IdentifierBinding { ty: TypeNode::Qualified { mutable, borrowed, moved, inner }, .. } => {
                    assert!(*mutable && *borrowed && !*moved);
                    assert!(matches!(inner.as_ref(), TypeNode::NominalType { name, .. } if name == "i32"));
                }
                other => panic!("unexpected {:?}", other),
            }
        }
        other => panic!("unexpected {:?}", other),
    }
}

#[test]
fn call_with_arguments_and_member_access() {
    // io::println(p.x, "hi")
    let stmts = program(vec![
        ident("io"),
        Token::BINOP(Sym::ColonColon),
        ident("println"),
        Token::PAREN('('),
        ident("p"),
        Token::PUNCT('.'),
        ident("x"),
        Token::PUNCT(','),
        Token::STRING("hi".to_string()),
        Token::PAREN(')'),
    ]);
    match &stmts[0] {
        AstNode::FunctionCall { callee, args } => {
            match callee.as_ref() {
                AstNode::NamespaceIndex { indexee, index } => {
                    assert!(is_ident(indexee, "io"));
                    assert!(is_ident(index, "println"));
                }
                other => panic!("unexpected {:?}", other),
            }
            assert_eq!(args.len(), 2);
            assert!(matches!(&args[0], AstNode::DotIndex { .. }));
            assert!(matches!(&args[1], AstNode::StringLiteral(s) if s == "hi"));
        }
        other => panic!("unexpected {:?}", other),
    }
}

#[test]
fn class_definition_with_members() {
    // class Point x: i32 pub y: i32 pub fn get(self): i32 return self.x end operator + (a: Point, b: Point): Point return a end end
    let stmts = program(vec![
        Token::CLASS,
        ident("Point"),
        ident("x"),
        Token::PUNCT(':'),
        ident("i32"),
        Token::PUB,
        ident("y"),
        Token::PUNCT(':'),
        ident("i32"),
        Token::PUB,
        Token::FN,
        ident("get"),
        Token::PAREN('('),
        Token::SELF,
        Token::PAREN(')'),
        Token::PUNCT(':'),
        ident("i32"),
        Token::RETURN,
        Token::SELF,
        Token::PUNCT('.'),
        ident("x"),
        Token::END,
        Token::OPERATOR,
        Token::BINOP(Sym::Plus),
        Token::PAREN('('),
        ident("a"),
        Token::PUNCT(':'),
        ident("Point"),
        Token::PUNCT(','),
        ident("b"),
        Token::PUNCT(':'),
        ident("Point"),
        Token::PAREN(')'),
        Token::PUNCT(':'),
        ident("Point"),
        Token::RETURN,
        ident("a"),
        Token::END,
        Token::END,
    ]);
    assert_eq!(stmts.len(), 1);
    match &stmts[0] {
        AstNode::ClassDefinition { name, members } => {
            assert_eq!(name, "Point");
            assert_eq!(members.len(), 4);
            assert!(matches!(&members[0], ClassMember::Field { name, is_public: false, .. } if name == "x"));
            assert!(matches!(&members[1], ClassMember::Field { name, is_public: true, .. } if name == "y"));
            match &members[2] {
                ClassMember::Method { name, has_self, params, body, is_public, .. } => {
                    assert_eq!(name, "get");
                    assert!(*has_self);
                    assert!(*is_public);
                    assert!(params.is_empty());
                    assert_eq!(body.len(), 1);
                }
                other => panic!("unexpected {:?}", other),
            }
            match &members[3] {
                ClassMember::OperatorOverload { op, params, .. } => {
                    assert_eq!(*op, Operator::Add);
                    assert_eq!(params.len(), 2);
                }
                other => panic!("unexpected {:?}", other),
            }
        }
        other => panic!("unexpected {:?}", other),
    }
}

#[test]
fn use_list_with_alias() {
    // use std::io::{println as p, read}
    let stmts = program(vec![
        Token::USE,
        ident("std"),
        Token::BINOP(Sym::ColonColon),
        ident("io"),
        Token::BINOP(Sym::ColonColon),
        Token::PAREN('{'),
        ident("println"),
        Token::AS,
        ident("p"),
        Token::PUNCT(','),
        ident("read"),
        Token::PAREN('}'),
    ]);
    match &stmts[0] {
        AstNode::UseStmt { base_path, used } => {
            match base_path.as_ref() {
                AstNode::NamespaceIndex { indexee, index } => {
                    assert!(is_ident(indexee, "std"));
                    assert!(is_ident(index, "io"));
                }
                other => panic!("unexpected {:?}", other),
            }
            assert_eq!(used.len(), 2);
            assert_eq!(used[0], ("println".to_string(), "p".to_string()));
            assert_eq!(used[1], ("read".to_string(), "read".to_string()));
        }
        other => panic!("unexpected {:?}", other),
    }
}

#[test]
fn use_single_name() {
    // use io::println  0   (a use path needs a token after it)
    let stmts = program(vec![Token::USE, ident("io"), Token::BINOP(Sym::ColonColon), ident("println"), Token::INT(0)]);
    assert_eq!(stmts.len(), 2);
    match &stmts[0] {
        AstNode::UseStmt { base_path, used } => {
            assert!(is_ident(base_path, "io"));
            assert_eq!(used, &vec![("println".to_string(), "println".to_string())]);
        }
        other => panic!("unexpected {:?}", other),
    }
}

#[test]
fn static_import_and_public_declaration() {
    // import io "@std/io"  pub x = 1
    let stmts = program(vec![
        Token::IMPORT,
        ident("io"),
        Token::STRING("@std/io".to_string()),
        Token::PUB,
        ident("x"),
        Token::BINOP(Sym::Assign),
        Token::INT(1),
    ]);
    assert_eq!(stmts.len(), 2);
    assert!(matches!(&stmts[0], AstNode::StaticImportStmt { namespace_alias, path } if namespace_alias == "io" && path == "@std/io"));
    match &stmts[1] {
        AstNode::Public(inner) => assert!(matches!(inner.as_ref(), AstNode::VarDeclaration { .. })),
        other => panic!("unexpected {:?}", other),
    }
}

#[test]
fn class_literal_and_move() {
    // Point { x = 1 }  ->p
    let stmts = program(vec![
        ident("Point"),
        Token::PAREN('{'),
        ident("x"),
        Token::BINOP(Sym::Assign),
        Token::INT(1),
        Token::PAREN('}'),
        Token::ARROW,
        ident("p"),
    ]);
    assert_eq!(stmts.len(), 2);
    match &stmts[0] {
        AstNode::ClassLiteral { ty, fields } => {
            assert!(is_ident(ty, "Point"));
            assert_eq!(fields.len(), 1);
            assert_eq!(fields[0].0, "x");
        }
        other => panic!("unexpected {:?}", other),
    }
    assert!(matches!(&stmts[1], AstNode::Moved(inner) if is_ident(inner, "p")));
}

#[test]
fn malformed_input_is_rejected() {
    // declare   (a binding is missing)
    assert!(parse(vec![Token::DECLARE]).is_none());
    // fn (no name)
    assert!(parse(vec![Token::FN, Token::PAREN('(')]).is_none());
    // a lone closing bracket
    assert!(parse(vec![Token::PAREN(')')]).is_none());
    // input that ends right after a type name or a use path
    assert!(parse(vec![ident("x"), Token::AS, ident("u8")]).is_none());
    assert!(parse(vec![Token::USE, ident("io"), Token::BINOP(Sym::ColonColon), ident("println")]).is_none());
}

fn declared_init(tokens: Vec<Token>) -> AstNode {
    let mut t = vec![Token::DECLARE, ident("x"), Token::BINOP(Sym::Assign)];
    t.extend(tokens);
    match program(t).into_iter().next() {
        Some(AstNode::VarDeclaration { init_value: Some(e), .. }) => *e,
        other => panic!("unexpected {:?}", other),
    }
}

#[test]
fn power_groups_to_the_right_and_minus_to_the_left() {
    // 2 ^ 3 ^ 4 is 2 ^ (3 ^ 4)
    let e = declared_init(vec![
        Token::INT(2),
        Token::BINOP(Sym::Caret),
        Token::INT(3),
        Token::BINOP(Sym::Caret),
        Token::INT(4),
    ]);
    match &e {
        AstNode::BinaryOperation { op: Operator::Pow, left, right } => {
            assert!(is_int(left, 2));
            match &**right {
                AstNode::BinaryOperation { op: Operator::Pow, left, right } => {
                    assert!(is_int(left, 3));
                    assert!(is_int(right, 4));
                }
                other => panic!("unexpected {:?}", other),
            }
        }
        other => panic!("unexpected {:?}", other),
    }
    // 5 - 3 - 1 is (5 - 3) - 1
    let e = declared_init(vec![
        Token::INT(5),
        Token::BINOP(Sym::Minus),
        Token::INT(3),
        Token::BINOP(Sym::Minus),
        Token::INT(1),
    ]);
    match &e {
        AstNode::BinaryOperation { op: Operator::Sub, left, right } => {
            assert!(is_int(right, 1));
            assert!(matches!(&**left, AstNode::BinaryOperation { op: Operator::Sub, .. }));
        }
        other => panic!("unexpected {:?}", other),
    }
}
