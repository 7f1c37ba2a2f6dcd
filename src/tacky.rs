//! Three-address code: a flat list of instructions per function, over
//! constants and pseudo-variables.

use vstd::prelude::*;
use crate::text::{Span, Text};

verus! {

#[derive(Debug, Copy, Clone, PartialEq, Eq, Hash, Structural)]
pub enum UnaryOperator {
    Complement,
    Negate,
    Not,
}

#[derive(Debug, Copy, Clone, PartialEq, Eq, Hash, Structural)]
pub enum BinaryOperator {
    Add,
    Sub,
    Mul,
    Div,
    Mod,
    And,
    Or,
    LeftShift,
    RightShift,
}

#[derive(Debug, Copy, Clone, PartialEq, Eq, Hash, Structural)]
pub enum ComparisonOperator {
    Equal,
    NotEqual,
    LessThan,
    LessThanOrEqual,
    GreaterThan,
    GreaterThanOrEqual,
}

/// A pseudo-variable: a name from the source, or a numbered temporary.
#[derive(Debug, Clone, PartialEq, Eq, Hash)]
pub enum Variable {
    Named(Text),
    Anonymous(u32),
}

/// An operand: a constant or a variable.
#[derive(Debug, Clone, PartialEq, Eq, Hash)]
pub enum Val {
    Constant(i32),
    Var(Variable),
}

#[derive(Debug, Clone, PartialEq, Eq, Hash)]
pub enum Instruction {
    Return(Val),
    Unary { op: UnaryOperator, src: Val, dst: Val },
    Binary { op: BinaryOperator, left_src: Val, right_src: Val, dst: Val },
    Comparison { op: ComparisonOperator, left_src: Val, right_src: Val, dst: Val },
    Copy { src: Val, dst: Val },
    Jump { target: Text },
    JumpIfZero { condition: Val, target: Text },
    JumpIfNotZero { condition: Val, target: Text },
    Label(Text),
}

#[derive(Debug, Clone, PartialEq, Eq, Hash)]
pub struct FunctionDefinition {
    pub name: Text,
    pub instructions: Vec<Instruction>,
    pub span: Span,
}

#[derive(Debug, Clone, PartialEq, Eq, Hash)]
pub struct Program {
    pub functions: Vec<FunctionDefinition>,
}

/// Mathematical model of a [`Variable`].
pub enum VariableModel {
    Named(Seq<char>),
    Anonymous(u32),
}

/// Mathematical model of a [`Val`].
pub enum ValModel {
    Constant(i32),
    Var(VariableModel),
}

/// Mathematical model of an [`Instruction`].
pub enum InstructionModel {
    Return(ValModel),
    Unary { op: UnaryOperator, src: ValModel, dst: ValModel },
    Binary { op: BinaryOperator, left_src: ValModel, right_src: ValModel, dst: ValModel },
    Comparison { op: ComparisonOperator, left_src: ValModel, right_src: ValModel, dst: ValModel },
    Copy { src: ValModel, dst: ValModel },
    Jump { target: Seq<char> },
    JumpIfZero { condition: ValModel, target: Seq<char> },
    JumpIfNotZero { condition: ValModel, target: Seq<char> },
    Label(Seq<char>),
}

/// Mathematical model of a [`FunctionDefinition`].
pub struct FunctionModel {
    pub name: Seq<char>,
    pub instructions: Seq<InstructionModel>,
    pub span: Span,
}

/// Mathematical model of a [`Program`].
pub struct ProgramModel {
    pub functions: Seq<FunctionModel>,
}

impl View for Variable {
    type V = VariableModel;

    open spec fn view(&self) -> VariableModel {
        match self {
            Variable::Named(t) => VariableModel::Named(t@),
            Variable::Anonymous(i) => VariableModel::Anonymous(*i),
        }
    }
}

impl View for Val {
    type V = ValModel;

    open spec fn view(&self) -> ValModel {
        match self {
            Val::Constant(c) => ValModel::Constant(*c),
            Val::Var(v) => ValModel::Var(v@),
        }
    }
}

impl View for Instruction {
    type V = InstructionModel;

    open spec fn view(&self) -> InstructionModel {
        match self {
            Instruction::Return(v) => InstructionModel::Return(v@),
            Instruction::Unary { op, src, dst } => InstructionModel::Unary {
                op: *op,
                src: src@,
                dst: dst@,
            },
            Instruction::Binary { op, left_src, right_src, dst } => InstructionModel::Binary {
                op: *op,
                left_src: left_src@,
                right_src: right_src@,
                dst: dst@,
            },
            Instruction::Comparison { op, left_src, right_src, dst } => {
                InstructionModel::Comparison {
                    op: *op,
                    left_src: left_src@,
                    right_src: right_src@,
                    dst: dst@,
                }
            },
            Instruction::Copy { src, dst } => InstructionModel::Copy { src: src@, dst: dst@ },
            Instruction::Jump { target } => InstructionModel::Jump { target: target@ },
            Instruction::JumpIfZero { condition, target } => InstructionModel::JumpIfZero {
                condition: condition@,
                target: target@,
            },
            Instruction::JumpIfNotZero { condition, target } => InstructionModel::JumpIfNotZero {
                condition: condition@,
                target: target@,
            },
            Instruction::Label(t) => InstructionModel::Label(t@),
        }
    }
}

/// The models of a sequence of instructions, in order.
pub open spec fn instructions_model(v: Seq<Instruction>) -> Seq<InstructionModel> {
    v.map_values(|i: Instruction| i@)
}

impl View for FunctionDefinition {
    type V = FunctionModel;

    open spec fn view(&self) -> FunctionModel {
        FunctionModel {
            name: self.name@,
            instructions: instructions_model(self.instructions@),
            span: self.span,
        }
    }
}

impl View for Program {
    type V = ProgramModel;

    open spec fn view(&self) -> ProgramModel {
        ProgramModel { functions: self.functions@.map_values(|f: FunctionDefinition| f@) }
    }
}

impl Variable {
    /// A copy of this variable with the same model.
    pub fn duplicate(&self) -> (r: Variable)
        ensures
            r@ == self@,
    {
        match self {
            Variable::Named(t) => Variable::Named(t.duplicate()),
            Variable::Anonymous(i) => Variable::Anonymous(*i),
        }
    }
}

impl Variable {
    /// Whether two variables are the same variable.
    pub fn same_as(&self, other: &Variable) -> (r: bool)
        ensures
            r == (self@ == other@),
    {
        match (self, other) {
            (Variable::Named(a), Variable::Named(b)) => a.value == b.value,
            (Variable::Anonymous(a), Variable::Anonymous(b)) => *a == *b,
            _ => false,
        }
    }
}

impl Val {
    /// A copy of this value with the same model.
    pub fn duplicate(&self) -> (r: Val)
        ensures
            r@ == self@,
    {
        match self {
            Val::Constant(c) => Val::Constant(*c),
            Val::Var(v) => Val::Var(v.duplicate()),
        }
    }
}

} // verus!
