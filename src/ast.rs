//! The parsed syntax tree that lowering consumes: a translation unit of
//! function definitions, their statements and expressions. Constructs that
//! the compiler does not handle are kept as `Unsupported` nodes so that
//! lowering can report them.

use vstd::prelude::*;
use crate::text::{Span, Text};

verus! {

/// A prefix operator of C.
#[derive(Debug, Copy, Clone, PartialEq, Eq, Hash, Structural)]
pub enum UnaryOp {
    /// `+`
    Plus,
    /// `-`
    Minus,
    /// `~`
    BitNot,
    /// `!`
    Not,
}

/// An infix operator of C.
#[derive(Debug, Copy, Clone, PartialEq, Eq, Hash, Structural)]
pub enum BinaryOp {
    Add,
    Sub,
    Mul,
    Div,
    Mod,
    BitAnd,
    BitOr,
    BitXor,
    LeftShift,
    RightShift,
    Equal,
    NotEqual,
    LessThan,
    LessThanOrEqual,
    GreaterThan,
    GreaterThanOrEqual,
    LogicalAnd,
    LogicalOr,
}

#[derive(Debug, PartialEq, Eq, Hash)]
pub enum Expression {
    /// A number literal, as written in the source.
    NumberLiteral { text: Text, span: Span },
    Unary { op: UnaryOp, argument: Box<Expression>, span: Span },
    Binary { op: BinaryOp, left: Box<Expression>, right: Box<Expression>, span: Span },
    /// A parenthesised expression; `inner` is `None` where the parentheses
    /// hold something other than an expression.
    Parenthesized { inner: Option<Box<Expression>>, span: Span },
    /// Any other expression, with its node kind.
    Unsupported { kind: Text, span: Span },
}

#[derive(Debug, PartialEq, Eq, Hash)]
pub enum Statement {
    /// `return expr;`, or a bare `return;` when `value` is `None`.
    Return { value: Option<Expression>, span: Span },
    /// Any other statement, with its node kind.
    Unsupported { kind: Text, span: Span },
}

/// A function definition. `name` and `body` are `None` where the parser
/// could not recover an identifier declarator or a compound body.
#[derive(Debug, PartialEq, Eq, Hash)]
pub struct FunctionDefinition {
    pub name: Option<Text>,
    pub body: Option<Vec<Statement>>,
    pub span: Span,
}

#[derive(Debug, PartialEq, Eq, Hash)]
pub enum Item {
    Function(FunctionDefinition),
    /// Any other top-level item, with its node kind.
    Unsupported { kind: Text, span: Span },
}

/// The root of a parsed source file.
#[derive(Debug, PartialEq, Eq, Hash)]
pub struct TranslationUnit {
    pub items: Vec<Item>,
    pub span: Span,
}

/// The number of nodes of an expression.
pub open spec fn expression_size(e: Expression) -> nat
    decreases e,
{
    match e {
        Expression::Unary { argument, .. } => 1 + expression_size(*argument),
        Expression::Binary { left, right, .. } => 1 + expression_size(*left) + expression_size(
            *right,
        ),
        Expression::Parenthesized { inner, .. } => match inner {
            Some(i) => 1 + expression_size(*i),
            None => 1,
        },
        _ => 1,
    }
}

/// The number of nodes of a statement.
pub open spec fn statement_size(s: Statement) -> nat {
    match s {
        Statement::Return { value: Some(e), .. } => 1 + expression_size(e),
        _ => 1,
    }
}

/// The number of nodes of a list of statements.
pub open spec fn statements_size(s: Seq<Statement>) -> nat
    decreases s.len(),
{
    if s.len() == 0 {
        0
    } else {
        statements_size(s.drop_last()) + statement_size(s.last())
    }
}

/// The number of nodes of a function body.
pub open spec fn function_size(f: FunctionDefinition) -> nat {
    match f.body {
        Some(b) => statements_size(b@),
        None => 0,
    }
}

/// The cap at which size counting stops.
pub const SIZE_CAP: u64 = 0x1_0000_0000;

pub open spec fn capped(n: nat) -> u64 {
    if n < SIZE_CAP {
        n as u64
    } else {
        SIZE_CAP
    }
}

impl Expression {
    /// The number of nodes of the expression, or [`SIZE_CAP`] where it has
    /// at least that many.
    pub fn size_capped(&self) -> (r: u64)
        ensures
            r == capped(expression_size(*self)),
        decreases *self,
    {
        match self {
            Expression::Unary { argument, .. } => {
                let a = argument.size_capped();
                if a >= SIZE_CAP { SIZE_CAP } else { 1 + a }
            },
            Expression::Binary { left, right, .. } => {
                let l = left.size_capped();
                let r = right.size_capped();
                if l + r + 1 >= SIZE_CAP { SIZE_CAP } else { l + r + 1 }
            },
            Expression::Parenthesized { inner, .. } => match inner {
                Some(i) => {
                    let a = i.size_capped();
                    if a >= SIZE_CAP { SIZE_CAP } else { 1 + a }
                },
                None => 1,
            },
            _ => 1,
        }
    }
}

impl Statement {
    /// The number of nodes of the statement, capped as for expressions.
    pub fn size_capped(&self) -> (r: u64)
        ensures
            r == capped(statement_size(*self)),
    {
        match self {
            Statement::Return { value: Some(e), .. } => {
                let a = e.size_capped();
                if a >= SIZE_CAP { SIZE_CAP } else { 1 + a }
            },
            _ => 1,
        }
    }
}

impl FunctionDefinition {
    /// The number of nodes of the body, capped as for expressions.
    pub fn size_capped(&self) -> (r: u64)
        ensures
            r == capped(function_size(*self)),
    {
        match &self.body {
            None => 0,
            Some(body) => {
                let mut total: u64 = 0;
                let mut i: usize = 0;
                while i < body.len()
                    invariant
                        0 <= i <= body.len(),
                        total == capped(statements_size(body@.subrange(0, i as int))),
                    decreases body.len() - i,
                {
                    assert(body@.subrange(0, i as int + 1).drop_last() =~= body@.subrange(0, i as int));
                    let s = body[i].size_capped();
                    if total + s >= SIZE_CAP {
                        total = SIZE_CAP;
                    } else {
                        total = total + s;
                    }
                    i = i + 1;
                }
                assert(body@.subrange(0, i as int) =~= body@);
                total
            },
        }
    }
}

} // verus!
