use vstd::prelude::*;
use crate::grammar::{ParsingContext, top_ctx, adv, agrees, sp_quals, sp_type, sp_type_base, sp_type_list, sp_type_params,
    sp_binding, sp_binding_list, sp_expr, sp_expr_bp, sp_infix_loop, sp_postfix, sp_class_fields, sp_call_args,
    sp_primary, spec_get_bp, spec_right_bp, spec_infix_operator, sp_stmt, sp_public, sp_var_decl, sp_ret, sp_for, sp_stmts_to_end,
    sp_signature, sp_fun_decl, sp_class_def, sp_members, sp_field, sp_method, sp_method_head, sp_operator_overload,
    sp_static_import, sp_use, sp_use_path, sp_use_list, sp_file, spec_overload_operator};
use crate::operator::Operator;
pub use crate::syntax::{AstNode, BindingNode, ClassMember, TypeNode};
use crate::syntax::{view_tnodes, view_bindings, view_asts, view_fields, view_members, view_type_params, view_used,
    view_opt_tnode, view_opt_ast, AstNodeV, TypeNodeV};
use crate::token::{Sym, Token};

verus! {

/// A recursive-descent parser over a list of tokens.
pub struct LucyParser {
    tokens: Vec<Token>,
    /// The name a `self` binding gets.
    self_name: String,
    pos: usize,
}

impl ParsingContext {
    /// The context at the top of a file.
    pub fn new() -> (c: Self)
        ensures
            c == top_ctx(),
    {
        ParsingContext { no_struct_literals: false, no_fn_body: false, current_class: None }
    }

    pub fn copy(&self) -> (c: Self)
        ensures
            c == *self,
    {
        let current_class = match &self.current_class {
            Some(s) => Some(s.clone()),
            None => None,
        };
        ParsingContext { no_struct_literals: self.no_struct_literals, no_fn_body: self.no_fn_body, current_class }
    }
}

proof fn lemma_push_tnodes(v: Seq<TypeNode>, t: TypeNode)
    ensures
        view_tnodes(v.push(t)) == view_tnodes(v).push(t@),
{
    assert(v.push(t).drop_last() =~= v);
}

proof fn lemma_push_bindings(v: Seq<BindingNode>, b: BindingNode)
    ensures
        view_bindings(v.push(b)) == view_bindings(v).push(b@),
{
    assert(v.push(b).drop_last() =~= v);
}

proof fn lemma_push_fields(v: Seq<(String, AstNode)>, f: (String, AstNode))
    ensures
        view_fields(v.push(f)) == view_fields(v).push((f.0@, f.1@)),
{
    assert(v.push(f).drop_last() =~= v);
}

/// Binding power of an infix token.
pub fn get_bp(op: &Token) -> (r: Option<u8>)
    ensures
        r == spec_get_bp(*op),
{
    match op {
        Token::BINOP(Sym::OrOr) => Some(2),
        Token::BINOP(Sym::AndAnd) => Some(3),
        Token::BINOP(Sym::Pipe) => Some(4),
        Token::AND => Some(5),
        Token::BINOP(Sym::EqEq) | Token::BINOP(Sym::NotEq) | Token::BINOP(Sym::Lt) | Token::BINOP(Sym::Gt)
        | Token::BINOP(Sym::Le) | Token::BINOP(Sym::Ge) => Some(6),
        Token::BINOP(Sym::Shl) | Token::BINOP(Sym::Shr) => Some(8),
        Token::BINOP(Sym::Plus) | Token::BINOP(Sym::Minus) => Some(10),
        Token::BINOP(Sym::Star) | Token::BINOP(Sym::Slash) | Token::BINOP(Sym::Percent) => Some(20),
        Token::BINOP(Sym::Caret) => Some(25),
        Token::AS => Some(30),
        _ => None,
    }
}

/// The binding power the right operand of `t` is parsed at.
fn right_bp(t: &Token, bp: u8) -> (r: u8)
    ensures
        r == spec_right_bp(*t, bp),
{
    match t {
        Token::BINOP(Sym::Caret) => {
            if bp > 0 {
                bp - 1
            } else {
                bp
            }
        },
        _ => bp,
    }
}

fn infix_operator(t: &Token) -> (op: Operator)
    ensures
        op == spec_infix_operator(*t),
{
    match t {
        Token::BINOP(Sym::Plus) => Operator::Add,
        Token::BINOP(Sym::Minus) => Operator::Sub,
        Token::BINOP(Sym::Star) => Operator::Mul,
        Token::BINOP(Sym::Slash) => Operator::Div,
        Token::BINOP(Sym::Percent) => Operator::Mod,
        Token::BINOP(Sym::Caret) => Operator::Pow,
        Token::BINOP(Sym::Shl) => Operator::BLShift,
        Token::BINOP(Sym::Shr) => Operator::BRShift,
        Token::BINOP(Sym::AndAnd) => Operator::LAnd,
        Token::BINOP(Sym::OrOr) => Operator::LOr,
        Token::AND => Operator::BAnd,
        Token::BINOP(Sym::Pipe) => Operator::BOr,
        Token::BINOP(Sym::EqEq) => Operator::Eq,
        Token::BINOP(Sym::NotEq) => Operator::NEq,
        Token::BINOP(Sym::Lt) => Operator::Lt,
        Token::BINOP(Sym::Gt) => Operator::Gt,
        Token::BINOP(Sym::Le) => Operator::Le,
        _ => Operator::Ge,
    }
}

proof fn lemma_push_members(v: Seq<ClassMember>, m: ClassMember)
    ensures
        view_members(v.push(m)) == view_members(v).push(m@),
{
    assert(v.push(m).drop_last() =~= v);
}

fn overload_operator(t: &Token) -> (r: Option<Operator>)
    ensures
        r == spec_overload_operator(*t),
{
    match t {
        Token::BINOP(Sym::Plus) => Some(Operator::Add),
        Token::BINOP(Sym::Minus) => Some(Operator::Sub),
        Token::UNARY('-') => Some(Operator::Sub),
        Token::BINOP(Sym::Slash) => Some(Operator::Div),
        Token::BINOP(Sym::Star) => Some(Operator::Mul),
        _ => None,
    }
}

proof fn lemma_push_asts(v: Seq<AstNode>, a: AstNode)
    ensures
        view_asts(v.push(a)) == view_asts(v).push(a@),
{
    assert(v.push(a).drop_last() =~= v);
}

impl LucyParser {
    pub closed spec fn toks(&self) -> Seq<Token> {
        self.tokens@
    }

    pub closed spec fn self_name(&self) -> Seq<char> {
        self.self_name@
    }

    pub closed spec fn position(&self) -> int {
        self.pos as int
    }

    pub fn new(tokens: Vec<Token>) -> (p: Self)
        ensures
            p.toks() == tokens@,
            p.self_name() == "self"@,
            p.position() == 0,
    {
        let self_name = String::from_str("self");
        proof {
            reveal_strlit("self");
        }
        LucyParser { tokens, self_name, pos: 0 }
    }

    fn quals(&self, i: usize) -> (r: Option<(usize, bool, bool, bool)>)
        ensures
            r matches Some((j, m, b, v)) ==> sp_quals(self.tokens@, i as int, false, false, false) == Some(
                (j as int, m, b, v),
            ) && i <= j < self.tokens@.len(),
            r is None ==> sp_quals(self.tokens@, i as int, false, false, false) is None,
    {
        let mut j = i;
        let mut m = false;
        let mut b = false;
        let mut v = false;
        loop
            invariant
                i <= j,
                sp_quals(self.tokens@, j as int, m, b, v) == sp_quals(self.tokens@, i as int, false, false, false),
            decreases self.tokens@.len() - j,
        {
            if j >= self.tokens.len() {
                return None;
            }
            match &self.tokens[j] {
                Token::MUTABLE => {
                    m = true;
                },
                Token::AND => {
                    b = true;
                },
                Token::ARROW => {
                    v = true;
                },
                _ => {
                    return Some((j, m, b, v));
                },
            }
            j = j + 1;
        }
    }

    fn parse_type_base(&self, j: usize, ctx: &ParsingContext) -> (r: Option<(TypeNode, usize)>)
        ensures
            agrees(r, sp_type_base(self.tokens@, j as int, *ctx)),
            r matches Some((_, k)) ==> j < k <= self.tokens@.len(),
        decreases self.tokens@.len() - j, 0int,
    {
        let n = self.tokens.len();
        if j >= n {
            return None;
        }
        match &self.tokens[j] {
            Token::IDENT(name) => {
                if j + 1 >= n {
                    return None;
                }
                if let Token::BINOP(Sym::Lt) = &self.tokens[j + 1] {
                    match self.parse_type_list(j + 2, ctx) {
                        Some((gs, k)) => Some((TypeNode::NominalType { name: name.clone(), generics: gs }, k)),
                        None => None,
                    }
                } else {
                    let gs: Vec<TypeNode> = Vec::new();
                    proof {
                        assert(view_tnodes(gs@) =~= Seq::<TypeNodeV>::empty());
                    }
                    Some((TypeNode::NominalType { name: name.clone(), generics: gs }, j + 1))
                }
            },
            Token::SELFTYPE => match &ctx.current_class {
                Some(c) => {
                    let gs: Vec<TypeNode> = Vec::new();
                    proof {
                        assert(view_tnodes(gs@) =~= Seq::<TypeNodeV>::empty());
                    }
                    Some((TypeNode::NominalType { name: c.clone(), generics: gs }, j + 1))
                },
                None => None,
            },
            Token::PAREN('{') => match self.parse_type(j + 1, ctx) {
                Some((e, k)) => {
                    if k < n && matches!(&self.tokens[k], Token::PAREN('}')) {
                        Some((TypeNode::ArrayType { elem_type: Box::new(e) }, k + 1))
                    } else {
                        None
                    }
                },
                None => None,
            },
            _ => None,
        }
    }

    fn parse_type(&self, i: usize, ctx: &ParsingContext) -> (r: Option<(TypeNode, usize)>)
        ensures
            agrees(r, sp_type(self.tokens@, i as int, *ctx)),
            r matches Some((_, j)) ==> i < j <= self.tokens@.len(),
        decreases self.tokens@.len() - i, 1int,
    {
        let (j, m, b, v) = match self.quals(i) {
            Some(q) => q,
            None => return None,
        };
        match self.parse_type_base(j, ctx) {
            Some((t, k)) => {
                if m || b || v {
                    Some((TypeNode::Qualified { inner: Box::new(t), mutable: m, borrowed: b, moved: v }, k))
                } else {
                    Some((t, k))
                }
            },
            None => None,
        }
    }

    /// Types separated by optional commas up to a closing `>`.
    fn parse_type_list(&self, k: usize, ctx: &ParsingContext) -> (r: Option<(Vec<TypeNode>, usize)>)
        ensures
            match sp_type_list(self.tokens@, k as int, *ctx, Seq::empty()) {
                Some((ts, j)) => r matches Some((v, jj)) && view_tnodes(v@) == ts && jj == j,
                None => r is None,
            },
            r matches Some((_, j)) ==> k < j <= self.tokens@.len(),
        decreases self.tokens@.len() - k, 2int,
    {
        let mut acc: Vec<TypeNode> = Vec::new();
        if k >= self.tokens.len() {
            return None;
        }
        let mut j = k;
        proof {
            assert(view_tnodes(acc@) =~= Seq::<TypeNodeV>::empty());
        }
        loop
            invariant
                k <= j <= self.tokens@.len(),
                sp_type_list(self.tokens@, j as int, *ctx, view_tnodes(acc@)) == sp_type_list(
                    self.tokens@,
                    k as int,
                    *ctx,
                    Seq::empty(),
                ),
            decreases self.tokens@.len() - j,
        {
            if j >= self.tokens.len() {
                return None;
            }
            match &self.tokens[j] {
                Token::BINOP(Sym::Gt) => {
                    return Some((acc, j + 1));
                },
                Token::PUNCT(',') => {
                    j = j + 1;
                },
                _ => {
                    match self.parse_type(j, ctx) {
                        Some((t, j2)) => {
                            proof {
                                lemma_push_tnodes(acc@, t);
                            }
                            acc.push(t);
                            j = j2;
                        },
                        None => return None,
                    }
                },
            }
        }
    }

    /// Type parameters with optional constraints up to `>`.
    fn parse_type_params(&self, k: usize, ctx: &ParsingContext) -> (r: Option<(Vec<(TypeNode, Option<TypeNode>)>, usize)>)
        ensures
            match sp_type_params(self.tokens@, k as int, *ctx, Seq::empty()) {
                Some((ts, j)) => r matches Some((v, jj)) && view_type_params(v@) == ts && jj == j,
                None => r is None,
            },
            r matches Some((_, j)) ==> k < j <= self.tokens@.len(),
    {
        let mut acc: Vec<(TypeNode, Option<TypeNode>)> = Vec::new();
        if k >= self.tokens.len() {
            return None;
        }
        let mut j = k;
        proof {
            assert(view_type_params(acc@) =~= Seq::empty());
        }
        loop
            invariant
                k <= j <= self.tokens@.len(),
                sp_type_params(self.tokens@, j as int, *ctx, view_type_params(acc@)) == sp_type_params(
                    self.tokens@,
                    k as int,
                    *ctx,
                    Seq::empty(),
                ),
            decreases self.tokens@.len() - j,
        {
            if j >= self.tokens.len() {
                return None;
            }
            match &self.tokens[j] {
                Token::BINOP(Sym::Gt) => {
                    return Some((acc, j + 1));
                },
                Token::PUNCT(',') => {
                    j = j + 1;
                },
                _ => {
                    match self.parse_type(j, ctx) {
                        Some((t, j2)) => {
                            if j2 >= self.tokens.len() {
                                return None;
                            }
                            let ghost old_acc = acc@;
                            if let Token::PUNCT(':') = &self.tokens[j2] {
                                match self.parse_type(j2 + 1, ctx) {
                                    Some((c, j3)) => {
                                        acc.push((t, Some(c)));
                                        j = j3;
                                    },
                                    None => return None,
                                }
                            } else {
                                acc.push((t, None));
                                j = j2;
                            }
                            proof {
                                assert(view_type_params(acc@) =~= view_type_params(old_acc).push(
                                    (acc@.last().0@, view_opt_tnode(acc@.last().1)),
                                ));
                            }
                        },
                        None => return None,
                    }
                },
            }
        }
    }

    fn parse_binding(&self, i: usize, ctx: &ParsingContext) -> (r: Option<(BindingNode, usize)>)
        ensures
            agrees(r, sp_binding(self.tokens@, i as int, *ctx, self.self_name@)),
            r matches Some((_, j)) ==> i < j <= self.tokens@.len(),
        decreases self.tokens@.len() - i, 0int,
    {
        if i >= self.tokens.len() {
            return None;
        }
        match &self.tokens[i] {
            Token::IDENT(_) | Token::SELF => {
                let name = match &self.tokens[i] {
                    Token::IDENT(s) => s.clone(),
                    _ => self.self_name.clone(),
                };
                if i + 1 >= self.tokens.len() {
                    return None;
                }
                if let Token::PUNCT(':') = &self.tokens[i + 1] {
                    match self.parse_type(i + 2, ctx) {
                        Some((t, j)) => Some((BindingNode::IdentifierBinding { name, ty: t }, j)),
                        None => None,
                    }
                } else {
                    Some((BindingNode::IdentifierBinding { name, ty: TypeNode::Inferred }, i + 1))
                }
            },
            Token::PAREN('(') => match self.parse_binding_list(i + 1, ctx, ')') {
                Some((bs, j)) => Some((BindingNode::OrderedBinding { bindings: bs }, j)),
                None => None,
            },
            Token::PAREN('{') => match self.parse_binding_list(i + 1, ctx, '}') {
                Some((bs, j)) => Some((BindingNode::UnorderedBinding { bindings: bs }, j)),
                None => None,
            },
            _ => None,
        }
    }

    /// Bindings separated by optional commas up to the bracket `close`.
    fn parse_binding_list(&self, k: usize, ctx: &ParsingContext, close: char) -> (r: Option<(Vec<BindingNode>, usize)>)
        ensures
            match sp_binding_list(self.tokens@, k as int, *ctx, self.self_name@, close, Seq::empty()) {
                Some((bs, j)) => r matches Some((v, jj)) && view_bindings(v@) == bs && jj == j,
                None => r is None,
            },
            r matches Some((_, j)) ==> k < j <= self.tokens@.len(),
        decreases self.tokens@.len() - k, 1int,
    {
        let mut acc: Vec<BindingNode> = Vec::new();
        if k >= self.tokens.len() {
            return None;
        }
        let mut j = k;
        proof {
            assert(view_bindings(acc@) =~= Seq::empty());
        }
        loop
            invariant
                k <= j <= self.tokens@.len(),
                sp_binding_list(self.tokens@, j as int, *ctx, self.self_name@, close, view_bindings(acc@))
                    == sp_binding_list(self.tokens@, k as int, *ctx, self.self_name@, close, Seq::empty()),
            decreases self.tokens@.len() - j,
        {
            if j >= self.tokens.len() {
                return None;
            }
            let is_close = match &self.tokens[j] {
                Token::PAREN(c) => *c == close,
                _ => false,
            };
            if is_close {
                return Some((acc, j + 1));
            }
            if let Token::PUNCT(',') = &self.tokens[j] {
                j = j + 1;
            } else {
                match self.parse_binding(j, ctx) {
                    Some((b, j2)) => {
                        proof {
                            lemma_push_bindings(acc@, b);
                        }
                        acc.push(b);
                        j = j2;
                    },
                    None => return None,
                }
            }
        }
    }

    fn parse_expr(&self, i: usize, ctx: &ParsingContext) -> (r: Option<(AstNode, usize)>)
        ensures
            agrees(r, sp_expr(self.tokens@, i as int, *ctx, self.self_name@)),
            r matches Some((_, j)) ==> i < j <= self.tokens@.len(),
        decreases self.tokens@.len() - i, 9int,
    {
        self.parse_expr_bp(i, ctx, 0)
    }

    fn parse_expr_bp(&self, i: usize, ctx: &ParsingContext, min_bp: u8) -> (r: Option<(AstNode, usize)>)
        ensures
            agrees(r, sp_expr_bp(self.tokens@, i as int, *ctx, self.self_name@, min_bp)),
            r matches Some((_, j)) ==> i < j <= self.tokens@.len(),
        decreases self.tokens@.len() - i, 8int,
    {
        let n = self.tokens.len();
        let (l, j) = match self.parse_primary(i, ctx) {
            Some(p) => p,
            None => return None,
        };
        let (mut left, mut k) = match self.parse_postfix(j, ctx, l) {
            Some(p) => p,
            None => return None,
        };
        let ghost sn = self.self_name@;
        loop
            invariant
                n == self.tokens@.len(),
                sn == self.self_name@,
                i < k <= n,
                sp_infix_loop(self.tokens@, k as int, *ctx, sn, min_bp, left@)
                    == sp_expr_bp(self.tokens@, i as int, *ctx, sn, min_bp),
            decreases n - k,
        {
            if k >= n {
                return Some((left, k));
            }
            let bp = match get_bp(&self.tokens[k]) {
                Some(bp) => bp,
                None => return Some((left, k)),
            };
            if bp <= min_bp {
                return Some((left, k));
            }
            if let Token::AS = &self.tokens[k] {
                match self.parse_type(k + 1, ctx) {
                    Some((t, k2)) => {
                        left = AstNode::TypeCast { left: Box::new(left), right: t };
                        k = k2;
                    },
                    None => return None,
                }
            } else {
                let op = infix_operator(&self.tokens[k]);
                let right_bp = right_bp(&self.tokens[k], bp);
                let (right, k2) = match self.parse_expr_bp(k + 1, ctx, right_bp) {
                    Some(p) => p,
                    None => return None,
                };
                let node = AstNode::BinaryOperation { op, left: Box::new(left), right: Box::new(right) };
                match self.parse_postfix(k2, ctx, node) {
                    Some((l3, k3)) => {
                        left = l3;
                        k = k3;
                    },
                    None => return None,
                }
            }
        }
    }

    fn parse_postfix(&self, k0: usize, ctx: &ParsingContext, left0: AstNode) -> (r: Option<(AstNode, usize)>)
        requires
            k0 <= self.tokens@.len(),
        ensures
            agrees(r, sp_postfix(self.tokens@, k0 as int, *ctx, self.self_name@, left0@)),
            r matches Some((_, j)) ==> k0 <= j <= self.tokens@.len(),
        decreases self.tokens@.len() - k0, 6int,
    {
        let n = self.tokens.len();
        let ghost sn = self.self_name@;
        let mut left = left0;
        let mut k = k0;
        loop
            invariant
                n == self.tokens@.len(),
                sn == self.self_name@,
                k0 <= k <= n,
                sp_postfix(self.tokens@, k as int, *ctx, sn, left@) == sp_postfix(self.tokens@, k0 as int, *ctx, sn, left0@),
            decreases n - k,
        {
            if k >= n {
                return Some((left, k));
            }
            match &self.tokens[k] {
                Token::PAREN('(') => match self.parse_call_args(k + 1, ctx) {
                    Some((args, k2)) => {
                        left = AstNode::FunctionCall { callee: Box::new(left), args };
                        k = k2;
                    },
                    None => return None,
                },
                Token::PAREN('[') => match self.parse_expr(k + 1, ctx) {
                    Some((ix, k2)) => {
                        if k2 < n && matches!(&self.tokens[k2], Token::PAREN(']')) {
                            left = AstNode::ComputedIndex { indexee: Box::new(left), index: Box::new(ix) };
                            k = k2 + 1;
                        } else {
                            return None;
                        }
                    },
                    None => return None,
                },
                Token::PUNCT('.') => {
                    if k + 1 >= n {
                        return None;
                    }
                    match &self.tokens[k + 1] {
                        Token::IDENT(f) => {
                            let idn = AstNode::Identifier(f.clone());
                            assert(idn@ == AstNodeV::Identifier(f@));
                            left = AstNode::DotIndex { indexee: Box::new(left), index: Box::new(idn) };
                            k = k + 2;
                        },
                        _ => return None,
                    }
                },
                Token::BINOP(Sym::ColonColon) => {
                    if k + 1 >= n {
                        return None;
                    }
                    match &self.tokens[k + 1] {
                        Token::BINOP(Sym::Lt) => match self.parse_type_list(k + 2, ctx) {
                            Some((ts, k2)) => {
                                left = AstNode::TypeInstantiation { callee: Box::new(left), type_args: ts };
                                k = k2;
                            },
                            None => return None,
                        },
                        Token::IDENT(seg) => {
                            let idn = AstNode::Identifier(seg.clone());
                            assert(idn@ == AstNodeV::Identifier(seg@));
                            left = AstNode::NamespaceIndex { indexee: Box::new(left), index: Box::new(idn) };
                            k = k + 2;
                        },
                        _ => return None,
                    }
                },
                Token::PAREN('{') => {
                    if ctx.no_struct_literals {
                        return Some((left, k));
                    }
                    match self.parse_class_fields(k + 1, ctx) {
                        Some((fs, k2)) => {
                            left = AstNode::ClassLiteral { ty: Box::new(left), fields: fs };
                            k = k2;
                        },
                        None => return None,
                    }
                },
                _ => return Some((left, k)),
            }
        }
    }

    /// `name = value` pairs separated by optional commas up to `}`.
    fn parse_class_fields(&self, k: usize, ctx: &ParsingContext) -> (r: Option<(Vec<(String, AstNode)>, usize)>)
        ensures
            match sp_class_fields(self.tokens@, k as int, *ctx, self.self_name@, Seq::empty()) {
                Some((fs, j)) => r matches Some((v, jj)) && view_fields(v@) == fs && jj == j,
                None => r is None,
            },
            r matches Some((_, j)) ==> k < j <= self.tokens@.len(),
        decreases self.tokens@.len() - k, 5int,
    {
        let n = self.tokens.len();
        if k >= n {
            return None;
        }
        let ghost sn = self.self_name@;
        let mut acc: Vec<(String, AstNode)> = Vec::new();
        let mut j = k;
        proof {
            assert(view_fields(acc@) =~= Seq::empty());
        }
        loop
            invariant
                n == self.tokens@.len(),
                sn == self.self_name@,
                k <= j <= n,
                sp_class_fields(self.tokens@, j as int, *ctx, sn, view_fields(acc@))
                    == sp_class_fields(self.tokens@, k as int, *ctx, sn, Seq::empty()),
            decreases n - j,
        {
            if j >= n {
                return None;
            }
            match &self.tokens[j] {
                Token::PAREN('}') => {
                    return Some((acc, j + 1));
                },
                Token::PUNCT(',') => {
                    j = j + 1;
                },
                Token::IDENT(name) => {
                    if !(j + 1 < n && matches!(&self.tokens[j + 1], Token::BINOP(Sym::Assign))) {
                        return None;
                    }
                    match self.parse_expr(j + 2, ctx) {
                        Some((v, j2)) => {
                            let f = (name.clone(), v);
                            proof {
                                lemma_push_fields(acc@, f);
                            }
                            acc.push(f);
                            j = j2;
                        },
                        None => return None,
                    }
                },
                _ => return None,
            }
        }
    }

    /// Call arguments separated by optional commas up to `)`.
    fn parse_call_args(&self, k: usize, ctx: &ParsingContext) -> (r: Option<(Vec<AstNode>, usize)>)
        ensures
            match sp_call_args(self.tokens@, k as int, *ctx, self.self_name@, Seq::empty()) {
                Some((args, j)) => r matches Some((v, jj)) && view_asts(v@) == args && jj == j,
                None => r is None,
            },
            r matches Some((_, j)) ==> k < j <= self.tokens@.len(),
        decreases self.tokens@.len() - k, 10int,
    {
        let n = self.tokens.len();
        if k >= n {
            return None;
        }
        let ghost sn = self.self_name@;
        let mut acc: Vec<AstNode> = Vec::new();
        let mut j = k;
        proof {
            assert(view_asts(acc@) =~= Seq::empty());
        }
        loop
            invariant
                n == self.tokens@.len(),
                sn == self.self_name@,
                k <= j <= n,
                sp_call_args(self.tokens@, j as int, *ctx, sn, view_asts(acc@))
                    == sp_call_args(self.tokens@, k as int, *ctx, sn, Seq::empty()),
            decreases n - j,
        {
            if j >= n {
                return None;
            }
            match &self.tokens[j] {
                Token::PAREN(')') => {
                    return Some((acc, j + 1));
                },
                Token::PUNCT(',') => {
                    j = j + 1;
                },
                _ => {
                    match self.parse_expr(j, ctx) {
                        Some((a, j2)) => {
                            proof {
                                lemma_push_asts(acc@, a);
                            }
                            acc.push(a);
                            j = j2;
                        },
                        None => return None,
                    }
                },
            }
        }
    }

    fn parse_primary(&self, i: usize, ctx: &ParsingContext) -> (r: Option<(AstNode, usize)>)
        ensures
            agrees(r, sp_primary(self.tokens@, i as int, *ctx, self.self_name@)),
            r matches Some((_, j)) ==> i < j <= self.tokens@.len(),
        decreases self.tokens@.len() - i, 4int,
    {
        let n = self.tokens.len();
        if i >= n {
            return None;
        }
        match &self.tokens[i] {
            Token::INT(v) => Some((AstNode::IntLiteral(*v), i + 1)),
            Token::FLOAT(f) => Some((AstNode::FloatLiteral(*f), i + 1)),
            Token::STRING(s) => Some((AstNode::StringLiteral(s.clone()), i + 1)),
            Token::IDENT(s) => Some((AstNode::Identifier(s.clone()), i + 1)),
            Token::SELF => Some((AstNode::SelfExpr, i + 1)),
            Token::SELFTYPE => match &ctx.current_class {
                Some(c) => Some((AstNode::Identifier(c.clone()), i + 1)),
                None => None,
            },
            Token::AND => match self.parse_primary(i + 1, ctx) {
                Some((o, j)) => Some((AstNode::Borrowed(Box::new(o)), j)),
                None => None,
            },
            Token::UNARY('-') => match self.parse_primary(i + 1, ctx) {
                Some((o, j)) => Some((AstNode::UnaryOperation { op: Operator::Neg, right: Box::new(o) }, j)),
                None => None,
            },
            Token::UNARY('!') => match self.parse_primary(i + 1, ctx) {
                Some((o, j)) => Some((AstNode::UnaryOperation { op: Operator::LNot, right: Box::new(o) }, j)),
                None => None,
            },
            Token::UNARY('~') => match self.parse_primary(i + 1, ctx) {
                Some((o, j)) => Some((AstNode::UnaryOperation { op: Operator::BNot, right: Box::new(o) }, j)),
                None => None,
            },
            Token::ARROW => match self.parse_primary(i + 1, ctx) {
                Some((o, j)) => Some((AstNode::Moved(Box::new(o)), j)),
                None => None,
            },
            Token::PAREN('(') => {
                let mut inner = ctx.copy();
                inner.no_struct_literals = false;
                match self.parse_expr(i + 1, &inner) {
                    Some((e, j)) => {
                        if j < n && matches!(&self.tokens[j], Token::PAREN(')')) {
                            Some((e, j + 1))
                        } else {
                            None
                        }
                    },
                    None => None,
                }
            },
            _ => None,
        }
    }

    fn parse_stmt(&self, i: usize, ctx: &ParsingContext) -> (r: Option<(AstNode, usize)>)
        ensures
            agrees(r, sp_stmt(self.tokens@, i as int, *ctx, self.self_name@)),
            r matches Some((_, j)) ==> i < j <= self.tokens@.len(),
        decreases self.tokens@.len() - i, 13int,
    {
        let n = self.tokens.len();
        if i >= n {
            return None;
        }
        match &self.tokens[i] {
            Token::FN => self.parse_fun_declaration(i + 1, ctx),
            Token::DECLARE => self.parse_var_declaration(i + 1, ctx),
            Token::FOR => self.parse_for_loop(i + 1, ctx),
            Token::RETURN => self.parse_ret(i + 1, ctx),
            Token::IMPORT => self.parse_static_import(i + 1),
            Token::USE => self.parse_use(i + 1),
            Token::PUB => self.parse_public(i + 1, ctx),
            Token::CLASS => self.parse_class_definition(i + 1, ctx),
            _ => self.parse_expr(i, ctx),
        }
    }

    fn parse_public(&self, i: usize, ctx: &ParsingContext) -> (r: Option<(AstNode, usize)>)
        ensures
            agrees(r, sp_public(self.tokens@, i as int, *ctx, self.self_name@)),
            r matches Some((_, j)) ==> i < j <= self.tokens@.len(),
        decreases self.tokens@.len() - i, 12int,
    {
        let n = self.tokens.len();
        if i >= n {
            return None;
        }
        let inner = match &self.tokens[i] {
            Token::CLASS => self.parse_class_definition(i + 1, ctx),
            Token::IDENT(_) => self.parse_var_declaration(i, ctx),
            Token::FN => self.parse_fun_declaration(i + 1, ctx),
            _ => None,
        };
        match inner {
            Some((a, j)) => Some((AstNode::Public(Box::new(a)), j)),
            None => None,
        }
    }

    fn parse_var_declaration(&self, i: usize, ctx: &ParsingContext) -> (r: Option<(AstNode, usize)>)
        ensures
            agrees(r, sp_var_decl(self.tokens@, i as int, *ctx, self.self_name@)),
            r matches Some((_, j)) ==> i < j <= self.tokens@.len(),
        decreases self.tokens@.len() - i, 11int,
    {
        let n = self.tokens.len();
        let (b, j) = match self.parse_binding(i, ctx) {
            Some(p) => p,
            None => return None,
        };
        if j >= n {
            return None;
        }
        if let Token::BINOP(Sym::Assign) = &self.tokens[j] {
            match self.parse_expr(j + 1, ctx) {
                Some((e, k)) => {
                    let init_value = Some(Box::new(e));
                    assert(view_opt_ast(init_value) == Some(Box::new(e@)));
                    Some((AstNode::VarDeclaration { binding: b, init_value }, k))
                },
                None => None,
            }
        } else {
            assert(view_opt_ast(None) == None::<Box<AstNodeV>>);
            Some((AstNode::VarDeclaration { binding: b, init_value: None }, j))
        }
    }

    fn parse_ret(&self, i: usize, ctx: &ParsingContext) -> (r: Option<(AstNode, usize)>)
        ensures
            agrees(r, sp_ret(self.tokens@, i as int, *ctx, self.self_name@)),
            r matches Some((_, j)) ==> i <= j <= self.tokens@.len(),
        decreases self.tokens@.len() - i, 11int,
    {
        let n = self.tokens.len();
        if i >= n {
            return None;
        }
        if let Token::PAREN('}') = &self.tokens[i] {
            assert(view_opt_ast(None) == None::<Box<AstNodeV>>);
            Some((AstNode::ReturnStmt { value: None }, i))
        } else {
            match self.parse_expr(i, ctx) {
                Some((e, j)) => {
                    let value = Some(Box::new(e));
                    assert(view_opt_ast(value) == Some(Box::new(e@)));
                    Some((AstNode::ReturnStmt { value }, j))
                },
                None => None,
            }
        }
    }

    fn parse_for_loop(&self, i: usize, ctx: &ParsingContext) -> (r: Option<(AstNode, usize)>)
        ensures
            agrees(r, sp_for(self.tokens@, i as int, *ctx, self.self_name@)),
            r matches Some((_, j)) ==> i < j <= self.tokens@.len(),
        decreases self.tokens@.len() - i, 11int,
    {
        let n = self.tokens.len();
        let (param, j) = match self.parse_binding(i, ctx) {
            Some(p) => p,
            None => return None,
        };
        if !(j < n && matches!(&self.tokens[j], Token::IN)) {
            return None;
        }
        let mut no_struct_ctx = ctx.copy();
        no_struct_ctx.no_struct_literals = true;
        let (iterator, k) = match self.parse_expr(j + 1, &no_struct_ctx) {
            Some(p) => p,
            None => return None,
        };
        if !(k < n && matches!(&self.tokens[k], Token::DO)) {
            return None;
        }
        let (body, m) = match self.parse_stmts_to_end(k + 1, ctx) {
            Some(p) => p,
            None => return None,
        };
        let mut params: Vec<BindingNode> = Vec::new();
        params.push(param);
        proof {
            assert(params@.drop_last() =~= Seq::<BindingNode>::empty());
            assert(view_bindings(params@) == view_bindings(params@.drop_last()).push(params@.last()@));
            assert(view_bindings(params@) =~= seq![params@[0]@]);
        }
        Some((AstNode::ForLoop { params, iterator: Box::new(iterator), body }, m))
    }

    /// Statements up to and including `end`.
    fn parse_stmts_to_end(&self, k: usize, ctx: &ParsingContext) -> (r: Option<(Vec<AstNode>, usize)>)
        ensures
            match sp_stmts_to_end(self.tokens@, k as int, *ctx, self.self_name@, Seq::empty()) {
                Some((b, j)) => r matches Some((v, jj)) && view_asts(v@) == b && jj == j,
                None => r is None,
            },
            r matches Some((_, j)) ==> k < j <= self.tokens@.len(),
        decreases self.tokens@.len() - k, 14int,
    {
        let n = self.tokens.len();
        if k >= n {
            return None;
        }
        let ghost sn = self.self_name@;
        let mut acc: Vec<AstNode> = Vec::new();
        let mut j = k;
        proof {
            assert(view_asts(acc@) =~= Seq::empty());
        }
        loop
            invariant
                n == self.tokens@.len(),
                sn == self.self_name@,
                k <= j <= n,
                sp_stmts_to_end(self.tokens@, j as int, *ctx, sn, view_asts(acc@))
                    == sp_stmts_to_end(self.tokens@, k as int, *ctx, sn, Seq::empty()),
            decreases n - j,
        {
            if j >= n {
                return None;
            }
            if let Token::END = &self.tokens[j] {
                return Some((acc, j + 1));
            }
            match self.parse_stmt(j, ctx) {
                Some((st, j2)) => {
                    proof {
                        lemma_push_asts(acc@, st);
                    }
                    acc.push(st);
                    j = j2;
                },
                None => return None,
            }
        }
    }

    /// Type parameters, parameters and return type of a function.
    fn parse_signature(&self, j: usize, ctx: &ParsingContext) -> (r: Option<
        (Vec<(TypeNode, Option<TypeNode>)>, Vec<BindingNode>, TypeNode, usize),
    >)
        ensures
            match sp_signature(self.tokens@, j as int, *ctx, self.self_name@) {
                Some((tps, ps, rt, k)) => r matches Some((a, b, c, kk)) && view_type_params(a@) == tps
                    && view_bindings(b@) == ps && c@ == rt && kk == k,
                None => r is None,
            },
            r matches Some((_, _, _, k)) ==> j < k <= self.tokens@.len(),
    {
        let n = self.tokens.len();
        if j >= n {
            return None;
        }
        let (tps, j2) = if let Token::BINOP(Sym::Lt) = &self.tokens[j] {
            match self.parse_type_params(j + 1, ctx) {
                Some(p) => p,
                None => return None,
            }
        } else {
            let tps: Vec<(TypeNode, Option<TypeNode>)> = Vec::new();
            proof {
                assert(view_type_params(tps@) =~= Seq::empty());
            }
            (tps, j)
        };
        if !(j2 < n && matches!(&self.tokens[j2], Token::PAREN('('))) {
            return None;
        }
        let (ps, j3) = match self.parse_binding_list(j2 + 1, ctx, ')') {
            Some(p) => p,
            None => return None,
        };
        if j3 >= n {
            return None;
        }
        if let Token::PUNCT(':') = &self.tokens[j3] {
            match self.parse_type(j3 + 1, ctx) {
                Some((rt, j4)) => Some((tps, ps, rt, j4)),
                None => None,
            }
        } else {
            Some((tps, ps, TypeNode::Inferred, j3))
        }
    }

    fn parse_fun_declaration(&self, i: usize, ctx: &ParsingContext) -> (r: Option<(AstNode, usize)>)
        ensures
            agrees(r, sp_fun_decl(self.tokens@, i as int, *ctx, self.self_name@)),
            r matches Some((_, j)) ==> i < j <= self.tokens@.len(),
        decreases self.tokens@.len() - i, 11int,
    {
        let n = self.tokens.len();
        if i >= n {
            return None;
        }
        let name = match &self.tokens[i] {
            Token::IDENT(s) => s.clone(),
            _ => return None,
        };
        let (type_params, params, return_type, j) = match self.parse_signature(i + 1, ctx) {
            Some(p) => p,
            None => return None,
        };
        if ctx.no_fn_body {
            let body: Vec<AstNode> = Vec::new();
            proof {
                assert(view_asts(body@) =~= Seq::empty());
            }
            Some((AstNode::FunctionDeclaration { name, type_params, params, return_type, body }, j))
        } else {
            match self.parse_stmts_to_end(j, ctx) {
                Some((body, k)) => Some((AstNode::FunctionDeclaration { name, type_params, params, return_type, body }, k)),
                None => None,
            }
        }
    }

    fn parse_class_definition(&self, i: usize, ctx: &ParsingContext) -> (r: Option<(AstNode, usize)>)
        ensures
            agrees(r, sp_class_def(self.tokens@, i as int, *ctx, self.self_name@)),
            r matches Some((_, j)) ==> i < j <= self.tokens@.len(),
        decreases self.tokens@.len() - i, 11int,
    {
        let n = self.tokens.len();
        if i >= n {
            return None;
        }
        let name = match &self.tokens[i] {
            Token::IDENT(s) => s.clone(),
            _ => return None,
        };
        let mut class_ctx = ctx.copy();
        class_ctx.current_class = Some(name.clone());
        match self.parse_members(i + 1, &class_ctx) {
            Some((members, j)) => Some((AstNode::ClassDefinition { name, members }, j)),
            None => None,
        }
    }

    /// Class members up to and including `end`.
    fn parse_members(&self, k: usize, ctx: &ParsingContext) -> (r: Option<(Vec<ClassMember>, usize)>)
        ensures
            match sp_members(self.tokens@, k as int, *ctx, self.self_name@, Seq::empty()) {
                Some((ms, j)) => r matches Some((v, jj)) && view_members(v@) == ms && jj == j,
                None => r is None,
            },
            r matches Some((_, j)) ==> k < j <= self.tokens@.len(),
        decreases self.tokens@.len() - k, 15int,
    {
        let n = self.tokens.len();
        if k >= n {
            return None;
        }
        let ghost sn = self.self_name@;
        let mut acc: Vec<ClassMember> = Vec::new();
        let mut j = k;
        proof {
            assert(view_members(acc@) =~= Seq::empty());
        }
        loop
            invariant
                n == self.tokens@.len(),
                sn == self.self_name@,
                k <= j <= n,
                sp_members(self.tokens@, j as int, *ctx, sn, view_members(acc@))
                    == sp_members(self.tokens@, k as int, *ctx, sn, Seq::empty()),
            decreases n - j,
        {
            if j >= n {
                return None;
            }
            let member = match &self.tokens[j] {
                Token::END => {
                    return Some((acc, j + 1));
                },
                Token::PUB => {
                    if j + 1 >= n {
                        return None;
                    }
                    match &self.tokens[j + 1] {
                        Token::FN => self.parse_class_method(j + 2, ctx, true),
                        Token::IDENT(_) => self.parse_class_field(j + 1, ctx, true),
                        _ => None,
                    }
                },
                Token::OPERATOR => self.parse_operator_overload(j + 1, ctx),
                Token::FN => self.parse_class_method(j + 1, ctx, false),
                Token::IDENT(_) => self.parse_class_field(j, ctx, false),
                _ => None,
            };
            match member {
                Some((m, j2)) => {
                    proof {
                        lemma_push_members(acc@, m);
                    }
                    acc.push(m);
                    j = j2;
                },
                None => return None,
            }
        }
    }

    fn parse_class_field(&self, k: usize, ctx: &ParsingContext, is_public: bool) -> (r: Option<(ClassMember, usize)>)
        ensures
            agrees(r, sp_field(self.tokens@, k as int, *ctx, is_public)),
            r matches Some((_, j)) ==> k < j <= self.tokens@.len(),
    {
        let n = self.tokens.len();
        if k >= n || k + 1 >= n {
            return None;
        }
        let name = match &self.tokens[k] {
            Token::IDENT(s) => s.clone(),
            _ => return None,
        };
        if !matches!(&self.tokens[k + 1], Token::PUNCT(':')) {
            return None;
        }
        match self.parse_type(k + 2, ctx) {
            Some((ty, j)) => Some((ClassMember::Field { name, ty, is_public }, j)),
            None => None,
        }
    }

    fn parse_method_head(&self, k: usize, ctx: &ParsingContext) -> (r: Option<
        (String, Vec<(TypeNode, Option<TypeNode>)>, bool, Vec<BindingNode>, TypeNode, usize),
    >)
        ensures
            match sp_method_head(self.tokens@, k as int, *ctx, self.self_name@) {
                Some((nm, tps, hs, ps, rt, j)) => r matches Some((a, b, c, d, e, jj)) && a@ == nm
                    && view_type_params(b@) == tps && c == hs && view_bindings(d@) == ps && e@ == rt && jj == j,
                None => r is None,
            },
            r matches Some((_, _, _, _, _, j)) ==> k < j <= self.tokens@.len(),
    {
        let n = self.tokens.len();
        if k >= n || k + 1 >= n {
            return None;
        }
        let name = match &self.tokens[k] {
            Token::IDENT(s) => s.clone(),
            _ => return None,
        };
        let j = k + 1;
        let (type_params, j2) = if let Token::BINOP(Sym::Lt) = &self.tokens[j] {
            match self.parse_type_params(j + 1, ctx) {
                Some(p) => p,
                None => return None,
            }
        } else {
            let tps: Vec<(TypeNode, Option<TypeNode>)> = Vec::new();
            proof {
                assert(view_type_params(tps@) =~= Seq::empty());
            }
            (tps, j)
        };
        if !(j2 < n && j2 + 1 < n && matches!(&self.tokens[j2], Token::PAREN('('))) {
            return None;
        }
        let has_self = matches!(&self.tokens[j2 + 1], Token::SELF);
        if has_self && j2 + 2 >= n {
            return None;
        }
        let j3 = if has_self {
            if matches!(&self.tokens[j2 + 2], Token::PUNCT(',')) {
                j2 + 3
            } else {
                j2 + 2
            }
        } else {
            j2 + 1
        };
        let (params, j4) = match self.parse_binding_list(j3, ctx, ')') {
            Some(p) => p,
            None => return None,
        };
        if j4 >= n {
            return None;
        }
        if let Token::PUNCT(':') = &self.tokens[j4] {
            match self.parse_type(j4 + 1, ctx) {
                Some((rt, j5)) => Some((name, type_params, has_self, params, rt, j5)),
                None => None,
            }
        } else {
            Some((name, type_params, has_self, params, TypeNode::Inferred, j4))
        }
    }

    fn parse_class_method(&self, k: usize, ctx: &ParsingContext, is_public: bool) -> (r: Option<(ClassMember, usize)>)
        ensures
            agrees(r, sp_method(self.tokens@, k as int, *ctx, self.self_name@, is_public)),
            r matches Some((_, j)) ==> k < j <= self.tokens@.len(),
        decreases self.tokens@.len() - k, 11int,
    {
        let (name, type_params, has_self, params, return_type, j) = match self.parse_method_head(k, ctx) {
            Some(h) => h,
            None => return None,
        };
        match self.parse_stmts_to_end(j, ctx) {
            Some((body, j2)) => Some((
                ClassMember::Method { name, type_params, has_self, params, return_type, body, is_public },
                j2,
            )),
            None => None,
        }
    }

    fn parse_operator_overload(&self, k: usize, ctx: &ParsingContext) -> (r: Option<(ClassMember, usize)>)
        ensures
            agrees(r, sp_operator_overload(self.tokens@, k as int, *ctx, self.self_name@)),
            r matches Some((_, j)) ==> k < j <= self.tokens@.len(),
        decreases self.tokens@.len() - k, 11int,
    {
        let n = self.tokens.len();
        if k >= n || k + 1 >= n {
            return None;
        }
        let op = match overload_operator(&self.tokens[k]) {
            Some(op) => op,
            None => return None,
        };
        if !matches!(&self.tokens[k + 1], Token::PAREN('(')) {
            return None;
        }
        let (params, j) = match self.parse_binding_list(k + 2, ctx, ')') {
            Some(p) => p,
            None => return None,
        };
        if j >= n {
            return None;
        }
        let (return_type, j2) = if let Token::PUNCT(':') = &self.tokens[j] {
            match self.parse_type(j + 1, ctx) {
                Some(p) => p,
                None => return None,
            }
        } else {
            (TypeNode::Inferred, j)
        };
        match self.parse_stmts_to_end(j2, ctx) {
            Some((body, j3)) => Some((ClassMember::OperatorOverload { op, params, return_type, body }, j3)),
            None => None,
        }
    }

    fn parse_static_import(&self, i: usize) -> (r: Option<(AstNode, usize)>)
        ensures
            agrees(r, sp_static_import(self.tokens@, i as int)),
            r matches Some((_, j)) ==> i < j <= self.tokens@.len(),
    {
        let n = self.tokens.len();
        if i >= n || i + 1 >= n {
            return None;
        }
        match (&self.tokens[i], &self.tokens[i + 1]) {
            (Token::IDENT(a), Token::STRING(path)) => Some(
                (AstNode::StaticImportStmt { namespace_alias: a.clone(), path: path.clone() }, i + 2),
            ),
            _ => None,
        }
    }

    fn parse_use(&self, i: usize) -> (r: Option<(AstNode, usize)>)
        ensures
            agrees(r, sp_use(self.tokens@, i as int)),
            r matches Some((_, j)) ==> i < j <= self.tokens@.len(),
    {
        let n = self.tokens.len();
        if i >= n {
            return None;
        }
        let base = match &self.tokens[i] {
            Token::IDENT(s) => AstNode::Identifier(s.clone()),
            _ => return None,
        };
        self.parse_use_path(i + 1, base)
    }

    fn parse_use_path(&self, k0: usize, base0: AstNode) -> (r: Option<(AstNode, usize)>)
        ensures
            agrees(r, sp_use_path(self.tokens@, k0 as int, base0@)),
            r matches Some((_, j)) ==> k0 < j <= self.tokens@.len(),
    {
        let n = self.tokens.len();
        let mut base = base0;
        let mut k = k0;
        loop
            invariant
                n == self.tokens@.len(),
                k0 <= k,
                sp_use_path(self.tokens@, k as int, base@) == sp_use_path(self.tokens@, k0 as int, base0@),
            decreases n - k,
        {
            if k >= n || k + 1 >= n || !matches!(&self.tokens[k], Token::BINOP(Sym::ColonColon)) {
                return None;
            }
            match &self.tokens[k + 1] {
                Token::PAREN('{') => {
                    return match self.parse_use_list(k + 2) {
                        Some((used, j)) => Some((AstNode::UseStmt { base_path: Box::new(base), used }, j)),
                        None => None,
                    };
                },
                Token::IDENT(name) => {
                    if k + 2 >= n {
                        return None;
                    }
                    let idn = AstNode::Identifier(name.clone());
                    assert(idn@ == AstNodeV::Identifier(name@));
                    match &self.tokens[k + 2] {
                        Token::BINOP(Sym::ColonColon) => {
                            base = AstNode::NamespaceIndex { indexee: Box::new(base), index: Box::new(idn) };
                            k = k + 2;
                        },
                        Token::AS => {
                            if k + 3 >= n {
                                return None;
                            }
                            match &self.tokens[k + 3] {
                                Token::IDENT(alias) => {
                                    let mut used: Vec<(String, String)> = Vec::new();
                                    used.push((name.clone(), alias.clone()));
                                    proof {
                                        assert(view_used(used@) =~= seq![(name@, alias@)]);
                                    }
                                    return Some((AstNode::UseStmt { base_path: Box::new(base), used }, k + 4));
                                },
                                _ => return None,
                            }
                        },
                        _ => {
                            let mut used: Vec<(String, String)> = Vec::new();
                            used.push((name.clone(), name.clone()));
                            proof {
                                assert(view_used(used@) =~= seq![(name@, name@)]);
                            }
                            return Some((AstNode::UseStmt { base_path: Box::new(base), used }, k + 2));
                        },
                    }
                },
                _ => return None,
            }
        }
    }

    /// `name [as alias]` items separated by optional commas up to `}`.
    fn parse_use_list(&self, k: usize) -> (r: Option<(Vec<(String, String)>, usize)>)
        ensures
            match sp_use_list(self.tokens@, k as int, Seq::empty()) {
                Some((u, j)) => r matches Some((v, jj)) && view_used(v@) == u && jj == j,
                None => r is None,
            },
            r matches Some((_, j)) ==> k < j <= self.tokens@.len(),
    {
        let n = self.tokens.len();
        if k >= n {
            return None;
        }
        let mut acc: Vec<(String, String)> = Vec::new();
        let mut j = k;
        proof {
            assert(view_used(acc@) =~= Seq::empty());
        }
        loop
            invariant
                n == self.tokens@.len(),
                k <= j <= n,
                sp_use_list(self.tokens@, j as int, view_used(acc@)) == sp_use_list(self.tokens@, k as int, Seq::empty()),
            decreases n - j,
        {
            if j >= n {
                return None;
            }
            match &self.tokens[j] {
                Token::PAREN('}') => {
                    return Some((acc, j + 1));
                },
                Token::PUNCT(',') => {
                    j = j + 1;
                },
                Token::IDENT(a) => {
                    if j + 1 >= n {
                        return None;
                    }
                    let ghost old_acc = acc@;
                    if let Token::AS = &self.tokens[j + 1] {
                        if j + 2 >= n {
                            return None;
                        }
                        match &self.tokens[j + 2] {
                            Token::IDENT(al) => {
                                acc.push((a.clone(), al.clone()));
                                j = j + 3;
                            },
                            _ => return None,
                        }
                    } else {
                        acc.push((a.clone(), a.clone()));
                        j = j + 1;
                    }
                    proof {
                        assert(view_used(acc@) =~= view_used(old_acc).push((acc@.last().0@, acc@.last().1@)));
                    }
                },
                _ => return None,
            }
        }
    }

    /// Parses statements from the current position to the end of the tokens,
    /// provided the tokens form a program.
    pub fn parse_file_source(&mut self) -> (r: AstNode)
        requires
            sp_file(old(self).toks(), old(self).position(), old(self).self_name(), Seq::empty()) is Some,
        ensures
            r@ == AstNodeV::Program(sp_file(old(self).toks(), old(self).position(), old(self).self_name(), Seq::empty())->0),
            final(self).toks() == old(self).toks(),
            final(self).self_name() == old(self).self_name(),
            final(self).position() == old(self).toks().len(),
    {
        match self.try_parse_file_source() {
            Some(a) => a,
            None => {
                proof {
                    assert(false);
                }
                AstNode::Program(Vec::new())
            },
        }
    }

    /// Parses statements from the current position to the end of the tokens;
    /// `None` when they do not form a program.
    pub fn try_parse_file_source(&mut self) -> (r: Option<AstNode>)
        ensures
            match sp_file(old(self).toks(), old(self).position(), old(self).self_name(), Seq::empty()) {
                Some(stmts) => r matches Some(a) && a@ == AstNodeV::Program(stmts),
                None => r is None,
            },
            final(self).toks() == old(self).toks(),
            final(self).self_name() == old(self).self_name(),
            r is Some ==> final(self).position() == old(self).toks().len(),
    {
        let n = self.tokens.len();
        let ctx = ParsingContext::new();
        let mut stmts: Vec<AstNode> = Vec::new();
        let k = self.pos;
        let mut j = k;
        proof {
            assert(view_asts(stmts@) =~= Seq::empty());
        }
        while j < n
            invariant
                n == self.tokens@.len(),
                ctx == top_ctx(),
                k == old(self).pos,
                self.tokens@ == old(self).tokens@,
                self.self_name == old(self).self_name,
                k <= j,
                sp_file(self.tokens@, j as int, self.self_name@, view_asts(stmts@))
                    == sp_file(self.tokens@, k as int, self.self_name@, Seq::empty()),
            decreases n - j,
        {
            match self.parse_stmt(j, &ctx) {
                Some((st, j2)) => {
                    proof {
                        lemma_push_asts(stmts@, st);
                    }
                    stmts.push(st);
                    j = j2;
                },
                None => return None,
            }
        }
        self.pos = n;
        Some(AstNode::Program(stmts))
    }
}

} // verus!
