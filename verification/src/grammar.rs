use vstd::prelude::*;
use crate::operator::Operator;
use crate::syntax::{AstNodeV, BindingNodeV, ClassMemberV, TypeNodeV};
use crate::token::{Sym, Token};

verus! {

/// What a parse may depend on besides the tokens.
pub struct ParsingContext {
    /// `{` after an expression does not start a class literal (for-loop heads).
    pub no_struct_literals: bool,
    /// Function declarations have no body.
    pub no_fn_body: bool,
    /// The class whose body is being parsed, which `Self` names.
    pub current_class: Option<String>,
}

/// The context at the top of a file.
pub open spec fn top_ctx() -> ParsingContext {
    ParsingContext { no_struct_literals: false, no_fn_body: false, current_class: None }
}

/// `j` is a position after `i` within `toks`.
pub open spec fn adv(toks: Seq<Token>, i: int, j: int) -> bool {
    i < j <= toks.len()
}

/// Whether an executable parse result agrees with the grammar's: both fail,
/// or both succeed with the same tree ending at the same position.
pub open spec fn agrees<T: View>(r: Option<(T, usize)>, s: Option<(T::V, int)>) -> bool {
    match (r, s) {
        (Some((t, j)), Some((v, k))) => t@ == v && j == k,
        (None, None) => true,
        _ => false,
    }
}

// ----------------------------------------------------------------------------
// Types

/// Skips the qualifiers `mut`, `&` and `->` in front of a type; yields the
/// position after them and which of them occurred.
pub open spec fn sp_quals(toks: Seq<Token>, i: int, m: bool, b: bool, v: bool) -> Option<(int, bool, bool, bool)>
    decreases toks.len() - i,
{
    if i < 0 || i >= toks.len() {
        None
    } else {
        match toks[i] {
            Token::MUTABLE => sp_quals(toks, i + 1, true, b, v),
            Token::AND => sp_quals(toks, i + 1, m, true, v),
            Token::ARROW => sp_quals(toks, i + 1, m, b, true),
            _ => Some((i, m, b, v)),
        }
    }
}

/// A type without qualifiers: a name with optional `<generics>`, `Self`, or
/// `{element type}` for an array.
pub open spec fn sp_type_base(toks: Seq<Token>, j: int, ctx: ParsingContext) -> Option<(TypeNodeV, int)>
    decreases toks.len() - j, 0int,
{
    if j < 0 || j >= toks.len() {
        None
    } else {
        match toks[j] {
            Token::IDENT(name) => {
                if j + 1 >= toks.len() {
                    None
                } else if toks[j + 1] == Token::BINOP(Sym::Lt) {
                    match sp_type_list(toks, j + 2, ctx, Seq::empty()) {
                        Some((gs, k)) => Some((TypeNodeV::NominalType { name: name@, generics: gs }, k)),
                        None => None,
                    }
                } else {
                    Some((TypeNodeV::NominalType { name: name@, generics: Seq::empty() }, j + 1))
                }
            },
            Token::SELFTYPE => match ctx.current_class {
                Some(n) => Some((TypeNodeV::NominalType { name: n@, generics: Seq::empty() }, j + 1)),
                None => None,
            },
            Token::PAREN('{') => match sp_type(toks, j + 1, ctx) {
                Some((e, k)) => {
                    if adv(toks, j, k) && k < toks.len() && toks[k] == Token::PAREN('}') {
                        Some((TypeNodeV::ArrayType { elem_type: Box::new(e) }, k + 1))
                    } else {
                        None
                    }
                },
                None => None,
            },
            _ => None,
        }
    }
}

/// A type: qualifiers, then a base type; with any qualifier the base type is
/// wrapped in `Qualified`.
pub open spec fn sp_type(toks: Seq<Token>, i: int, ctx: ParsingContext) -> Option<(TypeNodeV, int)>
    decreases toks.len() - i, 1int,
{
    match sp_quals(toks, i, false, false, false) {
        None => None,
        Some((j, m, b, v)) => {
            if !(i <= j < toks.len()) {
                None
            } else {
                match sp_type_base(toks, j, ctx) {
                    Some((t, k)) => {
                        if m || b || v {
                            Some((TypeNodeV::Qualified { inner: Box::new(t), mutable: m, borrowed: b, moved: v }, k))
                        } else {
                            Some((t, k))
                        }
                    },
                    None => None,
                }
            }
        },
    }
}

/// Types separated by optional commas up to a closing `>`.
pub open spec fn sp_type_list(toks: Seq<Token>, k: int, ctx: ParsingContext, acc: Seq<TypeNodeV>) -> Option<(Seq<TypeNodeV>, int)>
    decreases toks.len() - k, 2int,
{
    if k < 0 || k >= toks.len() {
        None
    } else {
        match toks[k] {
            Token::BINOP(Sym::Gt) => Some((acc, k + 1)),
            Token::PUNCT(',') => sp_type_list(toks, k + 1, ctx, acc),
            _ => match sp_type(toks, k, ctx) {
                Some((t, k2)) => {
                    if adv(toks, k, k2) {
                        sp_type_list(toks, k2, ctx, acc.push(t))
                    } else {
                        None
                    }
                },
                None => None,
            },
        }
    }
}

/// Type parameters, each with an optional `: constraint`, up to `>`.
pub open spec fn sp_type_params(
    toks: Seq<Token>,
    k: int,
    ctx: ParsingContext,
    acc: Seq<(TypeNodeV, Option<TypeNodeV>)>,
) -> Option<(Seq<(TypeNodeV, Option<TypeNodeV>)>, int)>
    decreases toks.len() - k,
{
    if k < 0 || k >= toks.len() {
        None
    } else {
        match toks[k] {
            Token::BINOP(Sym::Gt) => Some((acc, k + 1)),
            Token::PUNCT(',') => sp_type_params(toks, k + 1, ctx, acc),
            _ => match sp_type(toks, k, ctx) {
                Some((t, k2)) => {
                    if !adv(toks, k, k2) || k2 >= toks.len() {
                        None
                    } else if toks[k2] == Token::PUNCT(':') {
                        match sp_type(toks, k2 + 1, ctx) {
                            Some((c, k3)) => {
                                if adv(toks, k2, k3) {
                                    sp_type_params(toks, k3, ctx, acc.push((t, Some(c))))
                                } else {
                                    None
                                }
                            },
                            None => None,
                        }
                    } else {
                        sp_type_params(toks, k2, ctx, acc.push((t, None)))
                    }
                },
                None => None,
            },
        }
    }
}

// ----------------------------------------------------------------------------
// Bindings

pub open spec fn sp_binding(toks: Seq<Token>, i: int, ctx: ParsingContext, self_name: Seq<char>) -> Option<(BindingNodeV, int)>
    decreases toks.len() - i, 0int,
{
    if i < 0 || i >= toks.len() {
        None
    } else {
        match toks[i] {
            Token::IDENT(_) | Token::SELF => {
                let name = match toks[i] {
                    Token::IDENT(s) => s@,
                    _ => self_name,
                };
                if i + 1 >= toks.len() {
                    None
                } else if toks[i + 1] == Token::PUNCT(':') {
                    match sp_type(toks, i + 2, ctx) {
                        Some((t, j)) => Some((BindingNodeV::IdentifierBinding { name, ty: t }, j)),
                        None => None,
                    }
                } else {
                    Some((BindingNodeV::IdentifierBinding { name, ty: TypeNodeV::Inferred }, i + 1))
                }
            },
            Token::PAREN('(') => match sp_binding_list(toks, i + 1, ctx, self_name, ')', Seq::empty()) {
                Some((bs, j)) => Some((BindingNodeV::OrderedBinding { bindings: bs }, j)),
                None => None,
            },
            Token::PAREN('{') => match sp_binding_list(toks, i + 1, ctx, self_name, '}', Seq::empty()) {
                Some((bs, j)) => Some((BindingNodeV::UnorderedBinding { bindings: bs }, j)),
                None => None,
            },
            _ => None,
        }
    }
}

/// Bindings separated by optional commas up to the bracket `close`.
pub open spec fn sp_binding_list(
    toks: Seq<Token>,
    k: int,
    ctx: ParsingContext,
    self_name: Seq<char>,
    close: char,
    acc: Seq<BindingNodeV>,
) -> Option<(Seq<BindingNodeV>, int)>
    decreases toks.len() - k, 1int,
{
    if k < 0 || k >= toks.len() {
        None
    } else if toks[k] == Token::PAREN(close) {
        Some((acc, k + 1))
    } else if toks[k] == Token::PUNCT(',') {
        sp_binding_list(toks, k + 1, ctx, self_name, close, acc)
    } else {
        match sp_binding(toks, k, ctx, self_name) {
            Some((b, k2)) => {
                if adv(toks, k, k2) {
                    sp_binding_list(toks, k2, ctx, self_name, close, acc.push(b))
                } else {
                    None
                }
            },
            None => None,
        }
    }
}

// ----------------------------------------------------------------------------
// Operators

/// Binding power of an infix token.
pub open spec fn spec_get_bp(t: Token) -> Option<u8> {
    match t {
        Token::BINOP(Sym::OrOr) => Some(2),
        Token::BINOP(Sym::AndAnd) => Some(3),
        Token::BINOP(Sym::Pipe) => Some(4),
        Token::AND => Some(5),
        Token::BINOP(Sym::EqEq) | Token::BINOP(Sym::NotEq) | Token::BINOP(Sym::Lt) | Token::BINOP(Sym::Gt)
        | Token::BINOP(Sym::Le) | Token::BINOP(Sym::Ge) => Some(6),
        Token::BINOP(Sym::Shl) | Token::BINOP(Sym::Shr) => Some(8),
        Token::BINOP(Sym::Plus) | Token::BINOP(Sym::Minus) => Some(10),
        Token::BINOP(Sym::Star) | Token::BINOP(Sym::Slash) | Token::BINOP(Sym::Percent) => Some(20),
        Token::BINOP(Sym::Caret) => Some(25),
        Token::AS => Some(30),
        _ => None,
    }
}

/// The binding power the right operand of infix token `t`, of binding power
/// `bp`, is parsed at: one less for `^`, which groups to the right, and `bp`
/// itself for the other operators, which group to the left.
pub open spec fn spec_right_bp(t: Token, bp: u8) -> u8 {
    if t == Token::BINOP(Sym::Caret) && bp > 0 {
        (bp - 1) as u8
    } else {
        bp
    }
}

/// The operator an infix token stands for.
pub open spec fn spec_infix_operator(t: Token) -> Operator {
    match t {
        Token::BINOP(Sym::Plus) => Operator::Add,
        Token::BINOP(Sym::Minus) => Operator::Sub,
        Token::BINOP(Sym::Star) => Operator::Mul,
        Token::BINOP(Sym::Slash) => Operator::Div,
        Token::BINOP(Sym::Percent) => Operator::Mod,
        Token::BINOP(Sym::Caret) => Operator::Pow,
        Token::BINOP(Sym::Shl) => Operator::BLShift,
        Token::BINOP(Sym::Shr) => Operator::BRShift,
        Token::BINOP(Sym::AndAnd) => Operator::LAnd,
        Token::BINOP(Sym::OrOr) => Operator::LOr,
        Token::AND => Operator::BAnd,
        Token::BINOP(Sym::Pipe) => Operator::BOr,
        Token::BINOP(Sym::EqEq) => Operator::Eq,
        Token::BINOP(Sym::NotEq) => Operator::NEq,
        Token::BINOP(Sym::Lt) => Operator::Lt,
        Token::BINOP(Sym::Gt) => Operator::Gt,
        Token::BINOP(Sym::Le) => Operator::Le,
        _ => Operator::Ge,
    }
}

/// The operator a class may overload, named by the token after `operator`.
pub open spec fn spec_overload_operator(t: Token) -> Option<Operator> {
    match t {
        Token::BINOP(Sym::Plus) => Some(Operator::Add),
        Token::BINOP(Sym::Minus) => Some(Operator::Sub),
        Token::UNARY('-') => Some(Operator::Sub),
        Token::BINOP(Sym::Slash) => Some(Operator::Div),
        Token::BINOP(Sym::Star) => Some(Operator::Mul),
        _ => None,
    }
}

// ----------------------------------------------------------------------------
// Expressions and statements. Each function's measure is the number of tokens
// left, then a rank that orders the functions that call one another at the
// same position.

pub open spec fn sp_expr(toks: Seq<Token>, i: int, ctx: ParsingContext, sn: Seq<char>) -> Option<(AstNodeV, int)>
    decreases toks.len() - i, 9int,
{
    sp_expr_bp(toks, i, ctx, sn, 0)
}

/// An expression whose infix operators all bind tighter than `min_bp`.
pub open spec fn sp_expr_bp(toks: Seq<Token>, i: int, ctx: ParsingContext, sn: Seq<char>, min_bp: u8) -> Option<(AstNodeV, int)>
    decreases toks.len() - i, 8int,
{
    match sp_primary(toks, i, ctx, sn) {
        Some((l, j)) => {
            if !adv(toks, i, j) {
                None
            } else {
                match sp_postfix(toks, j, ctx, sn, l) {
                    Some((l2, j2)) => {
                        if !(j <= j2 <= toks.len()) {
                            None
                        } else {
                            sp_infix_loop(toks, j2, ctx, sn, min_bp, l2)
                        }
                    },
                    None => None,
                }
            }
        },
        None => None,
    }
}

/// Folds infix operators binding tighter than `min_bp` into `left`.
pub open spec fn sp_infix_loop(
    toks: Seq<Token>,
    k: int,
    ctx: ParsingContext,
    sn: Seq<char>,
    min_bp: u8,
    left: AstNodeV,
) -> Option<(AstNodeV, int)>
    decreases toks.len() - k, 7int,
{
    if k < 0 || k >= toks.len() {
        Some((left, k))
    } else {
        match spec_get_bp(toks[k]) {
            Some(bp) => {
                if bp <= min_bp {
                    Some((left, k))
                } else if toks[k] == Token::AS {
                    match sp_type(toks, k + 1, ctx) {
                        Some((t, k2)) => {
                            if adv(toks, k, k2) {
                                sp_infix_loop(toks, k2, ctx, sn, min_bp, AstNodeV::TypeCast { left: Box::new(left), right: t })
                            } else {
                                None
                            }
                        },
                        None => None,
                    }
                } else {
                    match sp_expr_bp(toks, k + 1, ctx, sn, spec_right_bp(toks[k], bp)) {
                        Some((r, k2)) => {
                            if !adv(toks, k, k2) {
                                None
                            } else {
                                let node = AstNodeV::BinaryOperation {
                                    op: spec_infix_operator(toks[k]),
                                    left: Box::new(left),
                                    right: Box::new(r),
                                };
                                match sp_postfix(toks, k2, ctx, sn, node) {
                                    Some((l3, k3)) => {
                                        if k2 <= k3 <= toks.len() {
                                            sp_infix_loop(toks, k3, ctx, sn, min_bp, l3)
                                        } else {
                                            None
                                        }
                                    },
                                    None => None,
                                }
                            }
                        },
                        None => None,
                    }
                }
            },
            None => Some((left, k)),
        }
    }
}

/// Applies calls, indexing, member access, type instantiation and class
/// literals that follow `left`.
pub open spec fn sp_postfix(toks: Seq<Token>, k: int, ctx: ParsingContext, sn: Seq<char>, left: AstNodeV) -> Option<(AstNodeV, int)>
    decreases toks.len() - k, 6int,
{
    if k < 0 || k >= toks.len() {
        Some((left, k))
    } else {
        match toks[k] {
            Token::PAREN('(') => match sp_call_args(toks, k + 1, ctx, sn, Seq::empty()) {
                Some((args, k2)) => {
                    if adv(toks, k, k2) {
                        sp_postfix(toks, k2, ctx, sn, AstNodeV::FunctionCall { callee: Box::new(left), args })
                    } else {
                        None
                    }
                },
                None => None,
            },
            Token::PAREN('[') => match sp_expr(toks, k + 1, ctx, sn) {
                Some((ix, k2)) => {
                    if adv(toks, k, k2) && k2 < toks.len() && toks[k2] == Token::PAREN(']') {
                        sp_postfix(toks, k2 + 1, ctx, sn, AstNodeV::ComputedIndex { indexee: Box::new(left), index: Box::new(ix) })
                    } else {
                        None
                    }
                },
                None => None,
            },
            Token::PUNCT('.') => {
                if k + 1 >= toks.len() {
                    None
                } else {
                    match toks[k + 1] {
                        Token::IDENT(f) => sp_postfix(
                            toks,
                            k + 2,
                            ctx,
                            sn,
                            AstNodeV::DotIndex { indexee: Box::new(left), index: Box::new(AstNodeV::Identifier(f@)) },
                        ),
                        _ => None,
                    }
                }
            },
            Token::BINOP(Sym::ColonColon) => {
                if k + 1 >= toks.len() {
                    None
                } else {
                    match toks[k + 1] {
                        Token::BINOP(Sym::Lt) => match sp_type_list(toks, k + 2, ctx, Seq::empty()) {
                            Some((ts, k2)) => {
                                if adv(toks, k, k2) {
                                    sp_postfix(toks, k2, ctx, sn, AstNodeV::TypeInstantiation { callee: Box::new(left), type_args: ts })
                                } else {
                                    None
                                }
                            },
                            None => None,
                        },
                        Token::IDENT(seg) => sp_postfix(
                            toks,
                            k + 2,
                            ctx,
                            sn,
                            AstNodeV::NamespaceIndex { indexee: Box::new(left), index: Box::new(AstNodeV::Identifier(seg@)) },
                        ),
                        _ => None,
                    }
                }
            },
            Token::PAREN('{') => {
                if ctx.no_struct_literals {
                    Some((left, k))
                } else {
                    match sp_class_fields(toks, k + 1, ctx, sn, Seq::empty()) {
                        Some((fs, k2)) => {
                            if adv(toks, k, k2) {
                                sp_postfix(toks, k2, ctx, sn, AstNodeV::ClassLiteral { ty: Box::new(left), fields: fs })
                            } else {
                                None
                            }
                        },
                        None => None,
                    }
                }
            },
            _ => Some((left, k)),
        }
    }
}

/// `name = value` pairs separated by optional commas up to `}`.
pub open spec fn sp_class_fields(
    toks: Seq<Token>,
    k: int,
    ctx: ParsingContext,
    sn: Seq<char>,
    acc: Seq<(Seq<char>, AstNodeV)>,
) -> Option<(Seq<(Seq<char>, AstNodeV)>, int)>
    decreases toks.len() - k, 5int,
{
    if k < 0 || k >= toks.len() {
        None
    } else {
        match toks[k] {
            Token::PAREN('}') => Some((acc, k + 1)),
            Token::PUNCT(',') => sp_class_fields(toks, k + 1, ctx, sn, acc),
            Token::IDENT(name) => {
                if k + 1 < toks.len() && toks[k + 1] == Token::BINOP(Sym::Assign) {
                    match sp_expr(toks, k + 2, ctx, sn) {
                        Some((v, k2)) => {
                            if adv(toks, k, k2) {
                                sp_class_fields(toks, k2, ctx, sn, acc.push((name@, v)))
                            } else {
                                None
                            }
                        },
                        None => None,
                    }
                } else {
                    None
                }
            },
            _ => None,
        }
    }
}

/// Call arguments separated by optional commas up to `)`.
pub open spec fn sp_call_args(toks: Seq<Token>, k: int, ctx: ParsingContext, sn: Seq<char>, acc: Seq<AstNodeV>) -> Option<(Seq<AstNodeV>, int)>
    decreases toks.len() - k, 10int,
{
    if k < 0 || k >= toks.len() {
        None
    } else {
        match toks[k] {
            Token::PAREN(')') => Some((acc, k + 1)),
            Token::PUNCT(',') => sp_call_args(toks, k + 1, ctx, sn, acc),
            _ => match sp_expr(toks, k, ctx, sn) {
                Some((a, k2)) => {
                    if adv(toks, k, k2) {
                        sp_call_args(toks, k2, ctx, sn, acc.push(a))
                    } else {
                        None
                    }
                },
                None => None,
            },
        }
    }
}

/// A literal, a name, a prefix operator applied to a primary, or a
/// parenthesized expression.
pub open spec fn sp_primary(toks: Seq<Token>, i: int, ctx: ParsingContext, sn: Seq<char>) -> Option<(AstNodeV, int)>
    decreases toks.len() - i, 4int,
{
    if i < 0 || i >= toks.len() {
        None
    } else {
        match toks[i] {
            Token::INT(n) => Some((AstNodeV::IntLiteral(n), i + 1)),
            Token::FLOAT(f) => Some((AstNodeV::FloatLiteral(f), i + 1)),
            Token::STRING(s) => Some((AstNodeV::StringLiteral(s@), i + 1)),
            Token::IDENT(s) => Some((AstNodeV::Identifier(s@), i + 1)),
            Token::SELF => Some((AstNodeV::SelfExpr, i + 1)),
            Token::SELFTYPE => match ctx.current_class {
                Some(c) => Some((AstNodeV::Identifier(c@), i + 1)),
                None => None,
            },
            Token::AND => match sp_primary(toks, i + 1, ctx, sn) {
                Some((o, j)) => Some((AstNodeV::Borrowed(Box::new(o)), j)),
                None => None,
            },
            Token::UNARY('-') => match sp_primary(toks, i + 1, ctx, sn) {
                Some((o, j)) => Some((AstNodeV::UnaryOperation { op: Operator::Neg, right: Box::new(o) }, j)),
                None => None,
            },
            Token::UNARY('!') => match sp_primary(toks, i + 1, ctx, sn) {
                Some((o, j)) => Some((AstNodeV::UnaryOperation { op: Operator::LNot, right: Box::new(o) }, j)),
                None => None,
            },
            Token::UNARY('~') => match sp_primary(toks, i + 1, ctx, sn) {
                Some((o, j)) => Some((AstNodeV::UnaryOperation { op: Operator::BNot, right: Box::new(o) }, j)),
                None => None,
            },
            Token::ARROW => match sp_primary(toks, i + 1, ctx, sn) {
                Some((o, j)) => Some((AstNodeV::Moved(Box::new(o)), j)),
                None => None,
            },
            Token::PAREN('(') => {
                let inner = ParsingContext { no_struct_literals: false, ..ctx };
                match sp_expr(toks, i + 1, inner, sn) {
                    Some((e, j)) => {
                        if adv(toks, i, j) && j < toks.len() && toks[j] == Token::PAREN(')') {
                            Some((e, j + 1))
                        } else {
                            None
                        }
                    },
                    None => None,
                }
            },
            _ => None,
        }
    }
}

/// A statement.
pub open spec fn sp_stmt(toks: Seq<Token>, i: int, ctx: ParsingContext, sn: Seq<char>) -> Option<(AstNodeV, int)>
    decreases toks.len() - i, 13int,
{
    if i < 0 || i >= toks.len() {
        None
    } else {
        match toks[i] {
            Token::FN => sp_fun_decl(toks, i + 1, ctx, sn),
            Token::DECLARE => sp_var_decl(toks, i + 1, ctx, sn),
            Token::FOR => sp_for(toks, i + 1, ctx, sn),
            Token::RETURN => sp_ret(toks, i + 1, ctx, sn),
            Token::IMPORT => sp_static_import(toks, i + 1),
            Token::USE => sp_use(toks, i + 1),
            Token::PUB => sp_public(toks, i + 1, ctx, sn),
            Token::CLASS => sp_class_def(toks, i + 1, ctx, sn),
            _ => sp_expr(toks, i, ctx, sn),
        }
    }
}

/// What follows `pub`: a class, a declaration without a keyword, or a function.
pub open spec fn sp_public(toks: Seq<Token>, i: int, ctx: ParsingContext, sn: Seq<char>) -> Option<(AstNodeV, int)>
    decreases toks.len() - i, 12int,
{
    if i < 0 || i >= toks.len() {
        None
    } else {
        let inner = match toks[i] {
            Token::CLASS => sp_class_def(toks, i + 1, ctx, sn),
            Token::IDENT(_) => sp_var_decl(toks, i, ctx, sn),
            Token::FN => sp_fun_decl(toks, i + 1, ctx, sn),
            _ => None,
        };
        match inner {
            Some((n, j)) => Some((AstNodeV::Public(Box::new(n)), j)),
            None => None,
        }
    }
}

/// `binding [= value]`.
pub open spec fn sp_var_decl(toks: Seq<Token>, i: int, ctx: ParsingContext, sn: Seq<char>) -> Option<(AstNodeV, int)>
    decreases toks.len() - i, 11int,
{
    match sp_binding(toks, i, ctx, sn) {
        Some((b, j)) => {
            if !adv(toks, i, j) || j >= toks.len() {
                None
            } else if toks[j] == Token::BINOP(Sym::Assign) {
                match sp_expr(toks, j + 1, ctx, sn) {
                    Some((e, k)) => Some((AstNodeV::VarDeclaration { binding: b, init_value: Some(Box::new(e)) }, k)),
                    None => None,
                }
            } else {
                Some((AstNodeV::VarDeclaration { binding: b, init_value: None }, j))
            }
        },
        None => None,
    }
}

/// What follows `return`.
pub open spec fn sp_ret(toks: Seq<Token>, i: int, ctx: ParsingContext, sn: Seq<char>) -> Option<(AstNodeV, int)>
    decreases toks.len() - i, 11int,
{
    if i < 0 || i >= toks.len() {
        None
    } else if toks[i] == Token::PAREN('}') {
        Some((AstNodeV::ReturnStmt { value: None }, i))
    } else {
        match sp_expr(toks, i, ctx, sn) {
            Some((e, j)) => Some((AstNodeV::ReturnStmt { value: Some(Box::new(e)) }, j)),
            None => None,
        }
    }
}

/// `binding in iterator do ... end`; the iterator may not contain class literals.
pub open spec fn sp_for(toks: Seq<Token>, i: int, ctx: ParsingContext, sn: Seq<char>) -> Option<(AstNodeV, int)>
    decreases toks.len() - i, 11int,
{
    match sp_binding(toks, i, ctx, sn) {
        Some((param, j)) => {
            if !adv(toks, i, j) || j >= toks.len() || toks[j] != Token::IN {
                None
            } else {
                match sp_expr(toks, j + 1, ParsingContext { no_struct_literals: true, ..ctx }, sn) {
                    Some((it, k)) => {
                        if !adv(toks, j, k) || k >= toks.len() || toks[k] != Token::DO {
                            None
                        } else {
                            match sp_stmts_to_end(toks, k + 1, ctx, sn, Seq::empty()) {
                                Some((body, m)) => Some(
                                    (AstNodeV::ForLoop { params: seq![param], iterator: Box::new(it), body }, m),
                                ),
                                None => None,
                            }
                        }
                    },
                    None => None,
                }
            }
        },
        None => None,
    }
}

/// Statements up to and including `end`.
pub open spec fn sp_stmts_to_end(toks: Seq<Token>, k: int, ctx: ParsingContext, sn: Seq<char>, acc: Seq<AstNodeV>) -> Option<(Seq<AstNodeV>, int)>
    decreases toks.len() - k, 14int,
{
    if k < 0 || k >= toks.len() {
        None
    } else if toks[k] == Token::END {
        Some((acc, k + 1))
    } else {
        match sp_stmt(toks, k, ctx, sn) {
            Some((st, k2)) => {
                if adv(toks, k, k2) {
                    sp_stmts_to_end(toks, k2, ctx, sn, acc.push(st))
                } else {
                    None
                }
            },
            None => None,
        }
    }
}

/// Optional `<type params>`, then `(params)`, then optional `: return type`;
/// yields them with the position after them.
pub open spec fn sp_signature(toks: Seq<Token>, j: int, ctx: ParsingContext, sn: Seq<char>) -> Option<
    (Seq<(TypeNodeV, Option<TypeNodeV>)>, Seq<BindingNodeV>, TypeNodeV, int),
> {
    if j < 0 || j >= toks.len() {
        None
    } else {
        let tp: Option<(Seq<(TypeNodeV, Option<TypeNodeV>)>, int)> = if toks[j] == Token::BINOP(Sym::Lt) {
            sp_type_params(toks, j + 1, ctx, Seq::empty())
        } else {
            Some((Seq::empty(), j))
        };
        match tp {
            Some((tps, j2)) => {
                if !(j <= j2 < toks.len()) || toks[j2] != Token::PAREN('(') {
                    None
                } else {
                    match sp_binding_list(toks, j2 + 1, ctx, sn, ')', Seq::empty()) {
                        Some((ps, j3)) => {
                            if !adv(toks, j2, j3) || j3 >= toks.len() {
                                None
                            } else if toks[j3] == Token::PUNCT(':') {
                                match sp_type(toks, j3 + 1, ctx) {
                                    Some((rt, j4)) => Some((tps, ps, rt, j4)),
                                    None => None,
                                }
                            } else {
                                Some((tps, ps, TypeNodeV::Inferred, j3))
                            }
                        },
                        None => None,
                    }
                }
            },
            None => None,
        }
    }
}

/// What follows `fn`.
pub open spec fn sp_fun_decl(toks: Seq<Token>, i: int, ctx: ParsingContext, sn: Seq<char>) -> Option<(AstNodeV, int)>
    decreases toks.len() - i, 11int,
{
    if i < 0 || i >= toks.len() {
        None
    } else {
        match toks[i] {
            Token::IDENT(name) => match sp_signature(toks, i + 1, ctx, sn) {
                Some((tps, ps, rt, j)) => {
                    if !adv(toks, i, j) {
                        None
                    } else if ctx.no_fn_body {
                        Some((
                            AstNodeV::FunctionDeclaration {
                                name: name@,
                                type_params: tps,
                                params: ps,
                                return_type: rt,
                                body: Seq::empty(),
                            },
                            j,
                        ))
                    } else {
                        match sp_stmts_to_end(toks, j, ctx, sn, Seq::empty()) {
                            Some((body, k)) => Some((
                                AstNodeV::FunctionDeclaration {
                                    name: name@,
                                    type_params: tps,
                                    params: ps,
                                    return_type: rt,
                                    body,
                                },
                                k,
                            )),
                            None => None,
                        }
                    }
                },
                None => None,
            },
            _ => None,
        }
    }
}

/// What follows `class`.
pub open spec fn sp_class_def(toks: Seq<Token>, i: int, ctx: ParsingContext, sn: Seq<char>) -> Option<(AstNodeV, int)>
    decreases toks.len() - i, 11int,
{
    if i < 0 || i >= toks.len() {
        None
    } else {
        match toks[i] {
            Token::IDENT(name) => {
                let cctx = ParsingContext { current_class: Some(name), ..ctx };
                match sp_members(toks, i + 1, cctx, sn, Seq::empty()) {
                    Some((ms, j)) => Some((AstNodeV::ClassDefinition { name: name@, members: ms }, j)),
                    None => None,
                }
            },
            _ => None,
        }
    }
}

/// Class members up to and including `end`.
pub open spec fn sp_members(toks: Seq<Token>, k: int, ctx: ParsingContext, sn: Seq<char>, acc: Seq<ClassMemberV>) -> Option<(Seq<ClassMemberV>, int)>
    decreases toks.len() - k, 15int,
{
    if k < 0 || k >= toks.len() {
        None
    } else {
        let member: Option<(ClassMemberV, int)> = match toks[k] {
            Token::PUB => {
                if k + 1 >= toks.len() {
                    None
                } else {
                    match toks[k + 1] {
                        Token::FN => sp_method(toks, k + 2, ctx, sn, true),
                        Token::IDENT(_) => sp_field(toks, k + 1, ctx, true),
                        _ => None,
                    }
                }
            },
            Token::OPERATOR => sp_operator_overload(toks, k + 1, ctx, sn),
            Token::FN => sp_method(toks, k + 1, ctx, sn, false),
            Token::IDENT(_) => sp_field(toks, k, ctx, false),
            _ => None,
        };
        if toks[k] == Token::END {
            Some((acc, k + 1))
        } else {
            match member {
                Some((m, k2)) => {
                    if adv(toks, k, k2) {
                        sp_members(toks, k2, ctx, sn, acc.push(m))
                    } else {
                        None
                    }
                },
                None => None,
            }
        }
    }
}

/// `name : type`.
pub open spec fn sp_field(toks: Seq<Token>, k: int, ctx: ParsingContext, is_public: bool) -> Option<(ClassMemberV, int)> {
    if k < 0 || k + 1 >= toks.len() {
        None
    } else {
        match toks[k] {
            Token::IDENT(name) => {
                if toks[k + 1] != Token::PUNCT(':') {
                    None
                } else {
                    match sp_type(toks, k + 2, ctx) {
                        Some((t, j)) => Some((ClassMemberV::Field { name: name@, ty: t, is_public }, j)),
                        None => None,
                    }
                }
            },
            _ => None,
        }
    }
}

/// The head of a method: name, optional type parameters, `(`, an optional
/// `self` (with an optional comma after it), parameters up to `)`, and an
/// optional `: return type`.
pub open spec fn sp_method_head(toks: Seq<Token>, k: int, ctx: ParsingContext, sn: Seq<char>) -> Option<
    (Seq<char>, Seq<(TypeNodeV, Option<TypeNodeV>)>, bool, Seq<BindingNodeV>, TypeNodeV, int),
> {
    if k < 0 || k + 1 >= toks.len() {
        None
    } else {
        match toks[k] {
            Token::IDENT(name) => {
                let j = k + 1;
                let tp: Option<(Seq<(TypeNodeV, Option<TypeNodeV>)>, int)> = if toks[j] == Token::BINOP(Sym::Lt) {
                    sp_type_params(toks, j + 1, ctx, Seq::empty())
                } else {
                    Some((Seq::empty(), j))
                };
                match tp {
                    Some((tps, j2)) => {
                        if !(j <= j2 && j2 + 1 < toks.len()) || toks[j2] != Token::PAREN('(') {
                            None
                        } else {
                            let has_self = toks[j2 + 1] == Token::SELF;
                            if has_self && j2 + 2 >= toks.len() {
                                None
                            } else {
                                let j3 = if has_self {
                                    if toks[j2 + 2] == Token::PUNCT(',') {
                                        j2 + 3
                                    } else {
                                        j2 + 2
                                    }
                                } else {
                                    j2 + 1
                                };
                                match sp_binding_list(toks, j3, ctx, sn, ')', Seq::empty()) {
                                    Some((ps, j4)) => {
                                        if !adv(toks, j3, j4) || j4 >= toks.len() {
                                            None
                                        } else if toks[j4] == Token::PUNCT(':') {
                                            match sp_type(toks, j4 + 1, ctx) {
                                                Some((r, j5)) => Some((name@, tps, has_self, ps, r, j5)),
                                                None => None,
                                            }
                                        } else {
                                            Some((name@, tps, has_self, ps, TypeNodeV::Inferred, j4))
                                        }
                                    },
                                    None => None,
                                }
                            }
                        }
                    },
                    None => None,
                }
            },
            _ => None,
        }
    }
}

/// What follows `fn` in a class body: a method head, then statements up to `end`.
pub open spec fn sp_method(toks: Seq<Token>, k: int, ctx: ParsingContext, sn: Seq<char>, is_public: bool) -> Option<(ClassMemberV, int)>
    decreases toks.len() - k, 11int,
{
    match sp_method_head(toks, k, ctx, sn) {
        Some((name, tps, has_self, ps, r, j)) => {
            if !adv(toks, k, j) {
                None
            } else {
                match sp_stmts_to_end(toks, j, ctx, sn, Seq::empty()) {
                    Some((body, j2)) => Some((
                        ClassMemberV::Method { name, type_params: tps, has_self, params: ps, return_type: r, body, is_public },
                        j2,
                    )),
                    None => None,
                }
            }
        },
        None => None,
    }
}

/// What follows `operator` in a class body.
pub open spec fn sp_operator_overload(toks: Seq<Token>, k: int, ctx: ParsingContext, sn: Seq<char>) -> Option<(ClassMemberV, int)>
    decreases toks.len() - k, 11int,
{
    if k < 0 || k + 1 >= toks.len() {
        None
    } else {
        match spec_overload_operator(toks[k]) {
            Some(op) => {
                if toks[k + 1] != Token::PAREN('(') {
                    None
                } else {
                    match sp_binding_list(toks, k + 2, ctx, sn, ')', Seq::empty()) {
                        Some((ps, j)) => {
                            if !adv(toks, k + 1, j) || j >= toks.len() {
                                None
                            } else {
                                let rt: Option<(TypeNodeV, int)> = if toks[j] == Token::PUNCT(':') {
                                    sp_type(toks, j + 1, ctx)
                                } else {
                                    Some((TypeNodeV::Inferred, j))
                                };
                                match rt {
                                    Some((r, j2)) => {
                                        if !(j <= j2 <= toks.len()) {
                                            None
                                        } else {
                                            match sp_stmts_to_end(toks, j2, ctx, sn, Seq::empty()) {
                                                Some((body, j3)) => Some((
                                                    ClassMemberV::OperatorOverload { op, params: ps, return_type: r, body },
                                                    j3,
                                                )),
                                                None => None,
                                            }
                                        }
                                    },
                                    None => None,
                                }
                            }
                        },
                        None => None,
                    }
                }
            },
            None => None,
        }
    }
}

/// `alias "path"`.
pub open spec fn sp_static_import(toks: Seq<Token>, i: int) -> Option<(AstNodeV, int)> {
    if i < 0 || i + 1 >= toks.len() {
        None
    } else {
        match (toks[i], toks[i + 1]) {
            (Token::IDENT(a), Token::STRING(path)) => Some(
                (AstNodeV::StaticImportStmt { namespace_alias: a@, path: path@ }, i + 2),
            ),
            _ => None,
        }
    }
}

/// What follows `use`: a path of names joined by `::` ending in a name (with
/// an optional `as` alias) or in a braced list of such.
pub open spec fn sp_use(toks: Seq<Token>, i: int) -> Option<(AstNodeV, int)> {
    if i < 0 || i >= toks.len() {
        None
    } else {
        match toks[i] {
            Token::IDENT(s) => sp_use_path(toks, i + 1, AstNodeV::Identifier(s@)),
            _ => None,
        }
    }
}

pub open spec fn sp_use_path(toks: Seq<Token>, k: int, base: AstNodeV) -> Option<(AstNodeV, int)>
    decreases toks.len() - k,
{
    if k < 0 || k + 1 >= toks.len() || toks[k] != Token::BINOP(Sym::ColonColon) {
        None
    } else {
        match toks[k + 1] {
            Token::PAREN('{') => match sp_use_list(toks, k + 2, Seq::empty()) {
                Some((used, j)) => Some((AstNodeV::UseStmt { base_path: Box::new(base), used }, j)),
                None => None,
            },
            Token::IDENT(name) => {
                if k + 2 >= toks.len() {
                    None
                } else if toks[k + 2] == Token::BINOP(Sym::ColonColon) {
                    sp_use_path(
                        toks,
                        k + 2,
                        AstNodeV::NamespaceIndex { indexee: Box::new(base), index: Box::new(AstNodeV::Identifier(name@)) },
                    )
                } else if toks[k + 2] == Token::AS {
                    if k + 3 < toks.len() {
                        match toks[k + 3] {
                            Token::IDENT(alias) => Some(
                                (AstNodeV::UseStmt { base_path: Box::new(base), used: seq![(name@, alias@)] }, k + 4),
                            ),
                            _ => None,
                        }
                    } else {
                        None
                    }
                } else {
                    Some((AstNodeV::UseStmt { base_path: Box::new(base), used: seq![(name@, name@)] }, k + 2))
                }
            },
            _ => None,
        }
    }
}

/// `name [as alias]` items separated by optional commas up to `}`.
pub open spec fn sp_use_list(toks: Seq<Token>, k: int, acc: Seq<(Seq<char>, Seq<char>)>) -> Option<(Seq<(Seq<char>, Seq<char>)>, int)>
    decreases toks.len() - k,
{
    if k < 0 || k >= toks.len() {
        None
    } else {
        match toks[k] {
            Token::PAREN('}') => Some((acc, k + 1)),
            Token::PUNCT(',') => sp_use_list(toks, k + 1, acc),
            Token::IDENT(a) => {
                if k + 1 >= toks.len() {
                    None
                } else if toks[k + 1] == Token::AS {
                    if k + 2 < toks.len() {
                        match toks[k + 2] {
                            Token::IDENT(al) => sp_use_list(toks, k + 3, acc.push((a@, al@))),
                            _ => None,
                        }
                    } else {
                        None
                    }
                } else {
                    sp_use_list(toks, k + 1, acc.push((a@, a@)))
                }
            },
            _ => None,
        }
    }
}

/// Statements up to the end of the tokens.
pub open spec fn sp_file(toks: Seq<Token>, k: int, sn: Seq<char>, acc: Seq<AstNodeV>) -> Option<Seq<AstNodeV>>
    decreases toks.len() - k,
{
    if k < 0 || k >= toks.len() {
        Some(acc)
    } else {
        match sp_stmt(toks, k, top_ctx(), sn) {
            Some((st, k2)) => {
                if adv(toks, k, k2) {
                    sp_file(toks, k2, sn, acc.push(st))
                } else {
                    None
                }
            },
            None => None,
        }
    }
}

} // verus!
