use vstd::prelude::*;
use crate::operator::Operator;

verus! {

/// A type as written in source.
#[derive(Debug)]
pub enum TypeNode {
    NominalType { name: String, generics: Vec<TypeNode> },
    ArrayType { elem_type: Box<TypeNode> },
    Qualified { inner: Box<TypeNode>, mutable: bool, borrowed: bool, moved: bool },
    Inferred,
}

/// The left-hand side of a declaration or a parameter.
#[derive(Debug)]
pub enum BindingNode {
    IdentifierBinding { name: String, ty: TypeNode },
    OrderedBinding { bindings: Vec<BindingNode> },
    UnorderedBinding { bindings: Vec<BindingNode> },
}

/// A member of a class definition.
#[derive(Debug)]
pub enum ClassMember {
    Field { name: String, ty: TypeNode, is_public: bool },
    Method {
        name: String,
        type_params: Vec<(TypeNode, Option<TypeNode>)>,
        has_self: bool,
        params: Vec<BindingNode>,
        return_type: TypeNode,
        body: Vec<AstNode>,
        is_public: bool,
    },
    OperatorOverload { op: Operator, params: Vec<BindingNode>, return_type: TypeNode, body: Vec<AstNode> },
}

/// The syntax tree of a source file. A float literal carries the IEEE-754
/// bit pattern of its `f64` value.
#[derive(Debug)]
pub enum AstNode {
    Identifier(String),
    IntLiteral(i32),
    FloatLiteral(u64),
    StringLiteral(String),
    SelfExpr,
    VarDeclaration { binding: BindingNode, init_value: Option<Box<AstNode>> },
    Assignment { left: Box<AstNode>, right: Box<AstNode> },
    FunctionDeclaration {
        name: String,
        type_params: Vec<(TypeNode, Option<TypeNode>)>,
        params: Vec<BindingNode>,
        return_type: TypeNode,
        body: Vec<AstNode>,
    },
    ReturnStmt { value: Option<Box<AstNode>> },
    StaticImportStmt { namespace_alias: String, path: String },
    DynamicImportStmt { namespace_alias: String, path: String },
    UseStmt { base_path: Box<AstNode>, used: Vec<(String, String)> },
    Public(Box<AstNode>),
    Borrowed(Box<AstNode>),
    Moved(Box<AstNode>),
    BinaryOperation { op: Operator, left: Box<AstNode>, right: Box<AstNode> },
    UnaryOperation { op: Operator, right: Box<AstNode> },
    ComputedIndex { indexee: Box<AstNode>, index: Box<AstNode> },
    DotIndex { indexee: Box<AstNode>, index: Box<AstNode> },
    NamespaceIndex { indexee: Box<AstNode>, index: Box<AstNode> },
    FunctionCall { callee: Box<AstNode>, args: Vec<AstNode> },
    ClassLiteral { ty: Box<AstNode>, fields: Vec<(String, AstNode)> },
    TypeInstantiation { callee: Box<AstNode>, type_args: Vec<TypeNode> },
    ConditionalBranch { next: Option<Box<AstNode>>, condition: Option<Box<AstNode>> },
    WhileLoop { condition: Box<AstNode>, body: Vec<AstNode> },
    ForLoop { params: Vec<BindingNode>, iterator: Box<AstNode>, body: Vec<AstNode> },
    TypeCast { left: Box<AstNode>, right: TypeNode },
    ClassDefinition { name: String, members: Vec<ClassMember> },
    Program(Vec<AstNode>),
}

// ---------------------------------------------------------------------------
// Mathematical values of syntax trees: names are character sequences, lists
// are sequences.

pub enum TypeNodeV {
    NominalType { name: Seq<char>, generics: Seq<TypeNodeV> },
    ArrayType { elem_type: Box<TypeNodeV> },
    Qualified { inner: Box<TypeNodeV>, mutable: bool, borrowed: bool, moved: bool },
    Inferred,
}

pub enum BindingNodeV {
    IdentifierBinding { name: Seq<char>, ty: TypeNodeV },
    OrderedBinding { bindings: Seq<BindingNodeV> },
    UnorderedBinding { bindings: Seq<BindingNodeV> },
}

pub enum ClassMemberV {
    Field { name: Seq<char>, ty: TypeNodeV, is_public: bool },
    Method {
        name: Seq<char>,
        type_params: Seq<(TypeNodeV, Option<TypeNodeV>)>,
        has_self: bool,
        params: Seq<BindingNodeV>,
        return_type: TypeNodeV,
        body: Seq<AstNodeV>,
        is_public: bool,
    },
    OperatorOverload { op: Operator, params: Seq<BindingNodeV>, return_type: TypeNodeV, body: Seq<AstNodeV> },
}

pub enum AstNodeV {
    Identifier(Seq<char>),
    IntLiteral(i32),
    FloatLiteral(u64),
    StringLiteral(Seq<char>),
    SelfExpr,
    VarDeclaration { binding: BindingNodeV, init_value: Option<Box<AstNodeV>> },
    Assignment { left: Box<AstNodeV>, right: Box<AstNodeV> },
    FunctionDeclaration {
        name: Seq<char>,
        type_params: Seq<(TypeNodeV, Option<TypeNodeV>)>,
        params: Seq<BindingNodeV>,
        return_type: TypeNodeV,
        body: Seq<AstNodeV>,
    },
    ReturnStmt { value: Option<Box<AstNodeV>> },
    StaticImportStmt { namespace_alias: Seq<char>, path: Seq<char> },
    DynamicImportStmt { namespace_alias: Seq<char>, path: Seq<char> },
    UseStmt { base_path: Box<AstNodeV>, used: Seq<(Seq<char>, Seq<char>)> },
    Public(Box<AstNodeV>),
    Borrowed(Box<AstNodeV>),
    Moved(Box<AstNodeV>),
    BinaryOperation { op: Operator, left: Box<AstNodeV>, right: Box<AstNodeV> },
    UnaryOperation { op: Operator, right: Box<AstNodeV> },
    ComputedIndex { indexee: Box<AstNodeV>, index: Box<AstNodeV> },
    DotIndex { indexee: Box<AstNodeV>, index: Box<AstNodeV> },
    NamespaceIndex { indexee: Box<AstNodeV>, index: Box<AstNodeV> },
    FunctionCall { callee: Box<AstNodeV>, args: Seq<AstNodeV> },
    ClassLiteral { ty: Box<AstNodeV>, fields: Seq<(Seq<char>, AstNodeV)> },
    TypeInstantiation { callee: Box<AstNodeV>, type_args: Seq<TypeNodeV> },
    ConditionalBranch { next: Option<Box<AstNodeV>>, condition: Option<Box<AstNodeV>> },
    WhileLoop { condition: Box<AstNodeV>, body: Seq<AstNodeV> },
    ForLoop { params: Seq<BindingNodeV>, iterator: Box<AstNodeV>, body: Seq<AstNodeV> },
    TypeCast { left: Box<AstNodeV>, right: TypeNodeV },
    ClassDefinition { name: Seq<char>, members: Seq<ClassMemberV> },
    Program(Seq<AstNodeV>),
}

pub open spec fn view_tnodes(s: Seq<TypeNode>) -> Seq<TypeNodeV>
    decreases s,
{
    if s.len() == 0 {
        Seq::empty()
    } else {
        view_tnodes(s.drop_last()).push(s.last().view())
    }
}

impl View for TypeNode {
    type V = TypeNodeV;

    open spec fn view(&self) -> TypeNodeV
        decreases self,
    {
        match self {
            TypeNode::NominalType { name, generics } => {
                proof {
                    assert(decreases_to!(self => generics@));
                }
                TypeNodeV::NominalType { name: name@, generics: view_tnodes(generics@) }
            },
            TypeNode::ArrayType { elem_type } => TypeNodeV::ArrayType { elem_type: Box::new((**elem_type).view()) },
            TypeNode::Qualified { inner, mutable, borrowed, moved } => TypeNodeV::Qualified {
                inner: Box::new((**inner).view()),
                mutable: *mutable,
                borrowed: *borrowed,
                moved: *moved,
            },
            TypeNode::Inferred => TypeNodeV::Inferred,
        }
    }
}

pub proof fn lemma_view_tnodes(s: Seq<TypeNode>)
    ensures
        view_tnodes(s).len() == s.len(),
        forall|i: int| 0 <= i < s.len() ==> #[trigger] view_tnodes(s)[i] == s[i]@,
    decreases s.len(),
{
    if s.len() > 0 {
        lemma_view_tnodes(s.drop_last());
        assert(view_tnodes(s) == view_tnodes(s.drop_last()).push(s.last().view()));
        assert forall|i: int| 0 <= i < s.len() implies #[trigger] view_tnodes(s)[i] == s[i]@ by {
            if i < s.len() - 1 {
                assert(s.drop_last()[i] == s[i]);
            }
        }
    }
}

pub open spec fn view_opt_tnode(t: Option<TypeNode>) -> Option<TypeNodeV> {
    match t {
        Some(t) => Some(t@),
        None => None,
    }
}

pub open spec fn view_type_params(s: Seq<(TypeNode, Option<TypeNode>)>) -> Seq<(TypeNodeV, Option<TypeNodeV>)> {
    s.map_values(|p: (TypeNode, Option<TypeNode>)| (p.0@, view_opt_tnode(p.1)))
}

pub open spec fn view_bindings(s: Seq<BindingNode>) -> Seq<BindingNodeV>
    decreases s,
{
    if s.len() == 0 {
        Seq::empty()
    } else {
        view_bindings(s.drop_last()).push(s.last().view())
    }
}

impl View for BindingNode {
    type V = BindingNodeV;

    open spec fn view(&self) -> BindingNodeV
        decreases self,
    {
        match self {
            BindingNode::IdentifierBinding { name, ty } => BindingNodeV::IdentifierBinding { name: name@, ty: ty@ },
            BindingNode::OrderedBinding { bindings } => {
                proof {
                    assert(decreases_to!(self => bindings@));
                }
                BindingNodeV::OrderedBinding { bindings: view_bindings(bindings@) }
            },
            BindingNode::UnorderedBinding { bindings } => {
                proof {
                    assert(decreases_to!(self => bindings@));
                }
                BindingNodeV::UnorderedBinding { bindings: view_bindings(bindings@) }
            },
        }
    }
}

pub proof fn lemma_view_bindings(s: Seq<BindingNode>)
    ensures
        view_bindings(s).len() == s.len(),
        forall|i: int| 0 <= i < s.len() ==> #[trigger] view_bindings(s)[i] == s[i]@,
    decreases s.len(),
{
    if s.len() > 0 {
        lemma_view_bindings(s.drop_last());
        assert(view_bindings(s) == view_bindings(s.drop_last()).push(s.last().view()));
        assert forall|i: int| 0 <= i < s.len() implies #[trigger] view_bindings(s)[i] == s[i]@ by {
            if i < s.len() - 1 {
                assert(s.drop_last()[i] == s[i]);
            }
        }
    }
}

pub open spec fn view_used(s: Seq<(String, String)>) -> Seq<(Seq<char>, Seq<char>)> {
    s.map_values(|p: (String, String)| (p.0@, p.1@))
}

pub open spec fn view_asts(s: Seq<AstNode>) -> Seq<AstNodeV>
    decreases s,
{
    if s.len() == 0 {
        Seq::empty()
    } else {
        view_asts(s.drop_last()).push(s.last().view())
    }
}

pub proof fn lemma_view_asts(s: Seq<AstNode>)
    ensures
        view_asts(s).len() == s.len(),
        forall|i: int| 0 <= i < s.len() ==> #[trigger] view_asts(s)[i] == s[i]@,
    decreases s.len(),
{
    if s.len() > 0 {
        lemma_view_asts(s.drop_last());
        assert(view_asts(s) == view_asts(s.drop_last()).push(s.last().view()));
        assert forall|i: int| 0 <= i < s.len() implies #[trigger] view_asts(s)[i] == s[i]@ by {
            if i < s.len() - 1 {
                assert(s.drop_last()[i] == s[i]);
            }
        }
    }
}

/// The view of a list of field initialisers is taken entry by entry.
pub proof fn lemma_view_fields(s: Seq<(String, AstNode)>)
    ensures
        view_fields(s).len() == s.len(),
        forall|i: int| 0 <= i < s.len() ==> #[trigger] view_fields(s)[i] == (s[i].0@, s[i].1@),
    decreases s.len(),
{
    if s.len() > 0 {
        lemma_view_fields(s.drop_last());
        assert(view_fields(s) == view_fields(s.drop_last()).push((s.last().0@, s.last().1@)));
        assert forall|i: int| 0 <= i < s.len() implies #[trigger] view_fields(s)[i] == (s[i].0@, s[i].1@) by {
            if i < s.len() - 1 {
                assert(s.drop_last()[i] == s[i]);
            }
        }
    }
}

pub open spec fn view_fields(s: Seq<(String, AstNode)>) -> Seq<(Seq<char>, AstNodeV)>
    decreases s,
{
    if s.len() == 0 {
        Seq::empty()
    } else {
        view_fields(s.drop_last()).push((s.last().0@, s.last().1.view()))
    }
}

pub open spec fn view_members(s: Seq<ClassMember>) -> Seq<ClassMemberV>
    decreases s,
{
    if s.len() == 0 {
        Seq::empty()
    } else {
        view_members(s.drop_last()).push(s.last().view())
    }
}

impl View for ClassMember {
    type V = ClassMemberV;

    open spec fn view(&self) -> ClassMemberV
        decreases self,
    {
        match self {
            ClassMember::Field { name, ty, is_public } => ClassMemberV::Field { name: name@, ty: ty@, is_public: *is_public },
            ClassMember::Method { name, type_params, has_self, params, return_type, body, is_public } => {
                proof {
                    assert(decreases_to!(self => body@));
                }
                ClassMemberV::Method {
                    name: name@,
                    type_params: view_type_params(type_params@),
                    has_self: *has_self,
                    params: view_bindings(params@),
                    return_type: return_type@,
                    body: view_asts(body@),
                    is_public: *is_public,
                }
            },
            ClassMember::OperatorOverload { op, params, return_type, body } => {
                proof {
                    assert(decreases_to!(self => body@));
                }
                ClassMemberV::OperatorOverload {
                    op: *op,
                    params: view_bindings(params@),
                    return_type: return_type@,
                    body: view_asts(body@),
                }
            },
        }
    }
}

pub open spec fn view_opt_ast(a: Option<Box<AstNode>>) -> Option<Box<AstNodeV>>
    decreases a,
{
    match a {
        Some(b) => Some(Box::new((*b).view())),
        None => None,
    }
}

impl View for AstNode {
    type V = AstNodeV;

    open spec fn view(&self) -> AstNodeV
        decreases self,
    {
        match self {
            AstNode::Identifier(s) => AstNodeV::Identifier(s@),
            AstNode::IntLiteral(n) => AstNodeV::IntLiteral(*n),
            AstNode::FloatLiteral(f) => AstNodeV::FloatLiteral(*f),
            AstNode::StringLiteral(s) => AstNodeV::StringLiteral(s@),
            AstNode::SelfExpr => AstNodeV::SelfExpr,
            AstNode::VarDeclaration { binding, init_value } => AstNodeV::VarDeclaration {
                binding: binding@,
                init_value: view_opt_ast(*init_value),
            },
            AstNode::Assignment { left, right } => AstNodeV::Assignment {
                left: Box::new((**left).view()),
                right: Box::new((**right).view()),
            },
            AstNode::FunctionDeclaration { name, type_params, params, return_type, body } => {
                proof {
                    assert(decreases_to!(self => body@));
                }
                AstNodeV::FunctionDeclaration {
                    name: name@,
                    type_params: view_type_params(type_params@),
                    params: view_bindings(params@),
                    return_type: return_type@,
                    body: view_asts(body@),
                }
            },
            AstNode::ReturnStmt { value } => AstNodeV::ReturnStmt { value: view_opt_ast(*value) },
            AstNode::StaticImportStmt { namespace_alias, path } => AstNodeV::StaticImportStmt {
                namespace_alias: namespace_alias@,
                path: path@,
            },
            AstNode::DynamicImportStmt { namespace_alias, path } => AstNodeV::DynamicImportStmt {
                namespace_alias: namespace_alias@,
                path: path@,
            },
            AstNode::UseStmt { base_path, used } => AstNodeV::UseStmt {
                base_path: Box::new((**base_path).view()),
                used: view_used(used@),
            },
            AstNode::Public(a) => AstNodeV::Public(Box::new((**a).view())),
            AstNode::Borrowed(a) => AstNodeV::Borrowed(Box::new((**a).view())),
            AstNode::Moved(a) => AstNodeV::Moved(Box::new((**a).view())),
            AstNode::BinaryOperation { op, left, right } => AstNodeV::BinaryOperation {
                op: *op,
                left: Box::new((**left).view()),
                right: Box::new((**right).view()),
            },
            AstNode::UnaryOperation { op, right } => AstNodeV::UnaryOperation {
                op: *op,
                right: Box::new((**right).view()),
            },
            AstNode::ComputedIndex { indexee, index } => AstNodeV::ComputedIndex {
                indexee: Box::new((**indexee).view()),
                index: Box::new((**index).view()),
            },
            AstNode::DotIndex { indexee, index } => AstNodeV::DotIndex {
                indexee: Box::new((**indexee).view()),
                index: Box::new((**index).view()),
            },
            AstNode::NamespaceIndex { indexee, index } => AstNodeV::NamespaceIndex {
                indexee: Box::new((**indexee).view()),
                index: Box::new((**index).view()),
            },
            AstNode::FunctionCall { callee, args } => {
                proof {
                    assert(decreases_to!(self => args@));
                }
                AstNodeV::FunctionCall { callee: Box::new((**callee).view()), args: view_asts(args@) }
            },
            AstNode::ClassLiteral { ty, fields } => {
                proof {
                    assert(decreases_to!(self => fields@));
                }
                AstNodeV::ClassLiteral { ty: Box::new((**ty).view()), fields: view_fields(fields@) }
            },
            AstNode::TypeInstantiation { callee, type_args } => AstNodeV::TypeInstantiation {
                callee: Box::new((**callee).view()),
                type_args: view_tnodes(type_args@),
            },
            AstNode::ConditionalBranch { next, condition } => AstNodeV::ConditionalBranch {
                next: view_opt_ast(*next),
                condition: view_opt_ast(*condition),
            },
            AstNode::WhileLoop { condition, body } => {
                proof {
                    assert(decreases_to!(self => body@));
                }
                AstNodeV::WhileLoop { condition: Box::new((**condition).view()), body: view_asts(body@) }
            },
            AstNode::ForLoop { params, iterator, body } => {
                proof {
                    assert(decreases_to!(self => body@));
                }
                AstNodeV::ForLoop {
                    params: view_bindings(params@),
                    iterator: Box::new((**iterator).view()),
                    body: view_asts(body@),
                }
            },
            AstNode::TypeCast { left, right } => AstNodeV::TypeCast { left: Box::new((**left).view()), right: right@ },
            AstNode::ClassDefinition { name, members } => {
                proof {
                    assert(decreases_to!(self => members@));
                }
                AstNodeV::ClassDefinition { name: name@, members: view_members(members@) }
            },
            AstNode::Program(stmts) => {
                proof {
                    assert(decreases_to!(self => stmts@));
                }
                AstNodeV::Program(view_asts(stmts@))
            },
        }
    }
}

} // verus!
