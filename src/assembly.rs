//! The assembly-level IR: x86-64 instructions over immediates, a few
//! registers and stack slots.

use vstd::prelude::*;
use crate::text::{Span, Text};

verus! {

/// A value an instruction reads or writes.
#[derive(Debug, Copy, Clone, PartialEq, Eq, Hash, Structural)]
pub enum Operand {
    /// A constant value.
    Imm(i32),
    /// A named register.
    Register(Register),
    /// A stack slot, as a byte offset below the frame pointer.
    Stack(u32),
}

#[derive(Debug, Copy, Clone, PartialEq, Eq, Hash, Structural)]
pub enum UnaryOperator {
    Neg,
    Complement,
    Not,
}

#[derive(Debug, Copy, Clone, PartialEq, Eq, Hash, Structural)]
pub enum BinaryOperator {
    Add,
    Sub,
    Mul,
    And,
    Or,
    LeftShift,
    RightShift,
}

#[derive(Debug, Copy, Clone, PartialEq, Eq, Hash, Structural)]
pub enum ComparisonOperator {
    Equal,
    NotEqual,
    LessThan,
    LessThanOrEqual,
    GreaterThan,
    GreaterThanOrEqual,
}

#[derive(Debug, Copy, Clone, PartialEq, Eq, Hash, Structural)]
pub enum Register {
    AX,
    DX,
    R10,
}

#[derive(Debug, Clone, PartialEq, Eq, Hash)]
pub enum Instruction {
    /// Copy `src` into `dst`.
    Mov { src: Operand, dst: Operand },
    /// Apply a unary operator to an operand in place.
    Unary { op: UnaryOperator, operand: Operand },
    /// `dst = dst op src`.
    Binary { op: BinaryOperator, src: Operand, dst: Operand },
    /// Divide `EDX:EAX` by `src`: quotient in `EAX`, remainder in `EDX`.
    Idiv { src: Operand },
    /// Sign-extend `EAX` into `EDX`.
    Cdq,
    /// Reserve this many bytes of stack.
    AllocateStack(u32),
    Ret,
    Label(Text),
    Jump { target: Text },
    JumpIfZero { condition: Operand, target: Text },
    JumpIfNotZero { condition: Operand, target: Text },
    /// `dst = (left op right) ? 1 : 0`.
    Comparison { op: ComparisonOperator, left: Operand, right: Operand, dst: Operand },
}

#[derive(Debug, Clone, PartialEq, Eq, Hash)]
pub struct FunctionDefinition {
    pub name: Text,
    pub instructions: Vec<Instruction>,
    pub span: Span,
}

#[derive(Debug, Clone, PartialEq, Eq, Hash)]
pub struct Program {
    pub functions: Vec<FunctionDefinition>,
}

/// Mathematical model of an [`Instruction`].
pub enum InstructionModel {
    Mov { src: Operand, dst: Operand },
    Unary { op: UnaryOperator, operand: Operand },
    Binary { op: BinaryOperator, src: Operand, dst: Operand },
    Idiv { src: Operand },
    Cdq,
    AllocateStack(u32),
    Ret,
    Label(Seq<char>),
    Jump { target: Seq<char> },
    JumpIfZero { condition: Operand, target: Seq<char> },
    JumpIfNotZero { condition: Operand, target: Seq<char> },
    Comparison { op: ComparisonOperator, left: Operand, right: Operand, dst: Operand },
}

/// Mathematical model of a [`FunctionDefinition`].
pub struct FunctionModel {
    pub name: Seq<char>,
    pub instructions: Seq<InstructionModel>,
    pub span: Span,
}

/// Mathematical model of a [`Program`].
pub struct ProgramModel {
    pub functions: Seq<FunctionModel>,
}

impl View for Instruction {
    type V = InstructionModel;

    open spec fn view(&self) -> InstructionModel {
        match self {
            Instruction::Mov { src, dst } => InstructionModel::Mov { src: *src, dst: *dst },
            Instruction::Unary { op, operand } => InstructionModel::Unary {
                op: *op,
                operand: *operand,
            },
            Instruction::Binary { op, src, dst } => InstructionModel::Binary {
                op: *op,
                src: *src,
                dst: *dst,
            },
            Instruction::Idiv { src } => InstructionModel::Idiv { src: *src },
            Instruction::Cdq => InstructionModel::Cdq,
            Instruction::AllocateStack(n) => InstructionModel::AllocateStack(*n),
            Instruction::Ret => InstructionModel::Ret,
            Instruction::Label(t) => InstructionModel::Label(t@),
            Instruction::Jump { target } => InstructionModel::Jump { target: target@ },
            Instruction::JumpIfZero { condition, target } => InstructionModel::JumpIfZero {
                condition: *condition,
                target: target@,
            },
            Instruction::JumpIfNotZero { condition, target } => InstructionModel::JumpIfNotZero {
                condition: *condition,
                target: target@,
            },
            Instruction::Comparison { op, left, right, dst } => InstructionModel::Comparison {
                op: *op,
                left: *left,
                right: *right,
                dst: *dst,
            },
        }
    }
}

/// The models of a sequence of instructions, in order.
pub open spec fn instructions_model(v: Seq<Instruction>) -> Seq<InstructionModel> {
    v.map_values(|i: Instruction| i@)
}

impl View for FunctionDefinition {
    type V = FunctionModel;

    open spec fn view(&self) -> FunctionModel {
        FunctionModel {
            name: self.name@,
            instructions: instructions_model(self.instructions@),
            span: self.span,
        }
    }
}

impl View for Program {
    type V = ProgramModel;

    open spec fn view(&self) -> ProgramModel {
        ProgramModel { functions: self.functions@.map_values(|f: FunctionDefinition| f@) }
    }
}

} // verus!
