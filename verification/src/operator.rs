use vstd::prelude::*;

verus! {

/// Operators of the language, as the parser hands them to the compiler.
#[derive(Debug, Clone, Copy, PartialEq, Eq, Hash, Structural)]
pub enum Operator {
    Add,
    Sub,
    Mul,
    Div,
    Mod,
    Pow,
    BLShift,
    BRShift,
    LAnd,
    LOr,
    BAnd,
    BOr,
    Eq,
    NEq,
    Lt,
    Gt,
    Le,
    Ge,
    Neg,
    LNot,
    BNot,
}

} // verus!
