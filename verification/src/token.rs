use vstd::prelude::*;

verus! {

/// Multi-character and single-character operator symbols carried by
/// `Token::BINOP`.
#[derive(Debug, Clone, Copy, PartialEq, Eq, Hash, Structural)]
pub enum Sym {
    /// `+`
    Plus,
    /// `-`
    Minus,
    /// `*`
    Star,
    /// `/`
    Slash,
    /// `%`
    Percent,
    /// `^`
    Caret,
    /// `<<`
    Shl,
    /// `>>`
    Shr,
    /// `<`
    Lt,
    /// `>`
    Gt,
    /// `<=`
    Le,
    /// `>=`
    Ge,
    /// `==`
    EqEq,
    /// `!=`
    NotEq,
    /// `&`
    Amp,
    /// `|`
    Pipe,
    /// `&&`
    AndAnd,
    /// `||`
    OrOr,
    /// `=`
    Assign,
    /// `+=`
    PlusAssign,
    /// `-=`
    MinusAssign,
    /// `*=`
    StarAssign,
    /// `/=`
    SlashAssign,
    /// `%=`
    PercentAssign,
    /// `::`
    ColonColon,
    /// `.`
    Dot,
    /// `..`
    DotDot,
}

/// A lexical token. Brackets, punctuation and unary operators carry the
/// character they were lexed from; binary operators carry their symbol;
/// identifiers and string literals carry their text. A float literal carries
/// the IEEE-754 bit pattern of its `f64` value.
#[derive(Debug, Clone, PartialEq, Eq)]
pub enum Token {
    IDENT(String),
    STRING(String),
    FMTSTRING(String),
    INT(i32),
    FLOAT(u64),
    /// One of `(`, `)`, `{`, `}`, `[`, `]`.
    PAREN(char),
    /// One of `,`, `:`, `.`, `;`.
    PUNCT(char),
    /// One of `-`, `!`, `~`.
    UNARY(char),
    BINOP(Sym),
    PUB,
    IMPORT,
    USE,
    DECLARE,
    FN,
    STRUCT,
    IMPL,
    WHILE,
    FOR,
    DO,
    END,
    IF,
    ELSEIF,
    ELSE,
    WHEN,
    IN,
    AS,
    ARROW,
    RETURN,
    SELF,
    SELFTYPE,
    MUTABLE,
    AND,
    CLASS,
    OPERATOR,
}

} // verus!
