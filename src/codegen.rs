//! Instruction selection from three-address code to the assembly IR, with
//! stack slots for pseudo-variables, followed by a fix-up pass that repairs
//! operand combinations the target cannot encode.

use vstd::prelude::*;
use crate::assembly::{
    self, instructions_model, ComparisonOperator, Instruction, InstructionModel, Operand, Register,
};
use crate::tacky::{self, Val, ValModel, Variable, VariableModel};

verus! {

/// The first index of `v` in `vars`, if it occurs.
pub open spec fn position(vars: Seq<VariableModel>, v: VariableModel) -> Option<nat>
    decreases vars.len(),
{
    if vars.len() == 0 {
        None
    } else {
        match position(vars.drop_last(), v) {
            Some(i) => Some(i),
            None => if vars.last() == v {
                Some((vars.len() - 1) as nat)
            } else {
                None
            },
        }
    }
}

/// The slot of `v` given the variables seen so far, in order of first
/// appearance: the variables afterwards and the slot's index.
pub open spec fn slot_spec(vars: Seq<VariableModel>, v: VariableModel) -> (Seq<VariableModel>, nat) {
    match position(vars, v) {
        Some(i) => (vars, i),
        None => (vars.push(v), vars.len()),
    }
}

/// The operand for a three-address value: constants become immediates, and
/// the variable with slot `k` becomes `Stack(4 * k)`.
pub open spec fn operand_spec(vars: Seq<VariableModel>, v: ValModel) -> (Seq<VariableModel>, Operand) {
    match v {
        ValModel::Constant(c) => (vars, Operand::Imm(c)),
        ValModel::Var(x) => {
            let (vs, i) = slot_spec(vars, x);
            (vs, Operand::Stack((4 * i) as u32))
        },
    }
}

pub open spec fn unary_to_asm(op: tacky::UnaryOperator) -> assembly::UnaryOperator {
    match op {
        tacky::UnaryOperator::Negate => assembly::UnaryOperator::Neg,
        tacky::UnaryOperator::Complement => assembly::UnaryOperator::Complement,
        tacky::UnaryOperator::Not => assembly::UnaryOperator::Not,
    }
}

pub open spec fn comparison_to_asm(op: tacky::ComparisonOperator) -> ComparisonOperator {
    match op {
        tacky::ComparisonOperator::Equal => ComparisonOperator::Equal,
        tacky::ComparisonOperator::NotEqual => ComparisonOperator::NotEqual,
        tacky::ComparisonOperator::LessThan => ComparisonOperator::LessThan,
        tacky::ComparisonOperator::LessThanOrEqual => ComparisonOperator::LessThanOrEqual,
        tacky::ComparisonOperator::GreaterThan => ComparisonOperator::GreaterThan,
        tacky::ComparisonOperator::GreaterThanOrEqual => ComparisonOperator::GreaterThanOrEqual,
    }
}

/// The assembly operator for an arithmetic operator other than `/` and `%`.
pub open spec fn binary_to_asm(op: tacky::BinaryOperator) -> Option<assembly::BinaryOperator> {
    match op {
        tacky::BinaryOperator::Add => Some(assembly::BinaryOperator::Add),
        tacky::BinaryOperator::Sub => Some(assembly::BinaryOperator::Sub),
        tacky::BinaryOperator::Mul => Some(assembly::BinaryOperator::Mul),
        tacky::BinaryOperator::And => Some(assembly::BinaryOperator::And),
        tacky::BinaryOperator::Or => Some(assembly::BinaryOperator::Or),
        tacky::BinaryOperator::LeftShift => Some(assembly::BinaryOperator::LeftShift),
        tacky::BinaryOperator::RightShift => Some(assembly::BinaryOperator::RightShift),
        _ => None,
    }
}

pub open spec fn reg(r: Register) -> Operand {
    Operand::Register(r)
}

/// The assembly selected for one three-address instruction, given the
/// variables seen so far.
pub open spec fn select_spec(vars: Seq<VariableModel>, i: tacky::InstructionModel) -> (Seq<VariableModel>, Seq<InstructionModel>) {
    match i {
        tacky::InstructionModel::Return(v) => {
            let (v1, src) = operand_spec(vars, v);
            (v1, seq![InstructionModel::Mov { src, dst: reg(Register::AX) }, InstructionModel::Ret])
        },
        tacky::InstructionModel::Unary { op, src, dst } => {
            let (v1, s) = operand_spec(vars, src);
            let (v2, d) = operand_spec(v1, dst);
            (
                v2,
                seq![
                    InstructionModel::Mov { src: s, dst: d },
                    InstructionModel::Unary { op: unary_to_asm(op), operand: d },
                ],
            )
        },
        tacky::InstructionModel::Binary { op, left_src, right_src, dst } => {
            let (v1, l) = operand_spec(vars, left_src);
            let (v2, r) = operand_spec(v1, right_src);
            let (v3, d) = operand_spec(v2, dst);
            match binary_to_asm(op) {
                Some(aop) => (
                    v3,
                    seq![
                        InstructionModel::Mov { src: l, dst: reg(Register::R10) },
                        InstructionModel::Binary { op: aop, src: r, dst: reg(Register::R10) },
                        InstructionModel::Mov { src: reg(Register::R10), dst: d },
                    ],
                ),
                None => (
                    v3,
                    seq![
                        InstructionModel::Mov { src: l, dst: reg(Register::AX) },
                        InstructionModel::Cdq,
                        InstructionModel::Idiv { src: r },
                        InstructionModel::Mov {
                            src: if op == tacky::BinaryOperator::Mod {
                                reg(Register::DX)
                            } else {
                                reg(Register::AX)
                            },
                            dst: d,
                        },
                    ],
                ),
            }
        },
        tacky::InstructionModel::Comparison { op, left_src, right_src, dst } => {
            let (v1, l) = operand_spec(vars, left_src);
            let (v2, r) = operand_spec(v1, right_src);
            let (v3, d) = operand_spec(v2, dst);
            (
                v3,
                seq![
                    InstructionModel::Comparison {
                        op: comparison_to_asm(op),
                        left: l,
                        right: r,
                        dst: d,
                    },
                ],
            )
        },
        tacky::InstructionModel::Copy { src, dst } => {
            let (v1, s) = operand_spec(vars, src);
            let (v2, d) = operand_spec(v1, dst);
            (v2, seq![InstructionModel::Mov { src: s, dst: d }])
        },
        tacky::InstructionModel::Jump { target } => (vars, seq![InstructionModel::Jump { target }]),
        tacky::InstructionModel::Label(t) => (vars, seq![InstructionModel::Label(t)]),
        tacky::InstructionModel::JumpIfZero { condition, target } => {
            let (v1, c) = operand_spec(vars, condition);
            (v1, seq![InstructionModel::JumpIfZero { condition: c, target }])
        },
        tacky::InstructionModel::JumpIfNotZero { condition, target } => {
            let (v1, c) = operand_spec(vars, condition);
            (v1, seq![InstructionModel::JumpIfNotZero { condition: c, target }])
        },
    }
}

/// The assembly selected for a list of instructions, in order: the variables
/// in order of first appearance, and the instructions.
pub open spec fn select_all_spec(instrs: Seq<tacky::InstructionModel>) -> (Seq<VariableModel>, Seq<InstructionModel>)
    decreases instrs.len(),
{
    if instrs.len() == 0 {
        (Seq::empty(), Seq::empty())
    } else {
        let (vars, out) = select_all_spec(instrs.drop_last());
        let (v2, more) = select_spec(vars, instrs.last());
        (v2, out + more)
    }
}

/// Instruction selection for a function: a stack allocation of four bytes
/// per variable, where there is any, before the selected instructions.
pub open spec fn to_assembly_spec(f: tacky::FunctionModel) -> assembly::FunctionModel {
    let (vars, body) = select_all_spec(f.instructions);
    assembly::FunctionModel {
        name: f.name,
        instructions: if vars.len() > 0 {
            seq![InstructionModel::AllocateStack((4 * vars.len()) as u32)] + body
        } else {
            body
        },
        span: f.span,
    }
}

/// The rewrite of one instruction whose operands the target cannot encode.
pub open spec fn fix_up_one(i: InstructionModel) -> Seq<InstructionModel> {
    match i {
        InstructionModel::Mov { src: Operand::Stack(a), dst: Operand::Stack(b) } => seq![
            InstructionModel::Mov { src: Operand::Stack(a), dst: reg(Register::R10) },
            InstructionModel::Mov { src: reg(Register::R10), dst: Operand::Stack(b) },
        ],
        InstructionModel::Idiv { src: Operand::Imm(c) } => seq![
            InstructionModel::Mov { src: Operand::Imm(c), dst: reg(Register::R10) },
            InstructionModel::Idiv { src: reg(Register::R10) },
        ],
        InstructionModel::Comparison { op, left, right, dst } => {
            if (left is Imm && right is Imm) || (left is Stack && right is Imm) {
                seq![
                    InstructionModel::Mov { src: left, dst: reg(Register::R10) },
                    InstructionModel::Comparison { op, left: reg(Register::R10), right, dst },
                ]
            } else if left is Imm && right is Stack {
                seq![
                    InstructionModel::Mov { src: right, dst: reg(Register::R10) },
                    InstructionModel::Comparison { op, left: reg(Register::R10), right: left, dst },
                ]
            } else {
                seq![i]
            }
        },
        _ => seq![i],
    }
}

/// The fix-up pass over a list of instructions.
pub open spec fn fix_up_spec(instrs: Seq<InstructionModel>) -> Seq<InstructionModel>
    decreases instrs.len(),
{
    if instrs.len() == 0 {
        Seq::empty()
    } else {
        fix_up_spec(instrs.drop_last()) + fix_up_one(instrs.last())
    }
}

/// Code generation for one function: selection, then fix-up.
pub open spec fn lower_function_spec(f: tacky::FunctionModel) -> assembly::FunctionModel {
    let a = to_assembly_spec(f);
    assembly::FunctionModel { instructions: fix_up_spec(a.instructions), ..a }
}

/// Code generation for a program, function by function.
pub open spec fn generate_assembly_spec(p: tacky::ProgramModel) -> assembly::ProgramModel {
    assembly::ProgramModel { functions: p.functions.map_values(|f| lower_function_spec(f)) }
}

/// Assigns each distinct variable a four-byte stack slot, in order of first
/// appearance.
pub struct StackAllocator {
    pub variables: Vec<Variable>,
}

impl View for StackAllocator {
    type V = Seq<VariableModel>;

    open spec fn view(&self) -> Seq<VariableModel> {
        self.variables@.map_values(|v: Variable| v@)
    }
}

/// Room for one more slot whose offset fits in a `u32`.
pub open spec fn slot_room(vars: Seq<VariableModel>) -> bool {
    4 * (vars.len() + 1) <= u32::MAX
}

/// Where `v` first occurs in `vars`, `position` says so, and nothing before it is `v`.
proof fn lemma_position(vars: Seq<VariableModel>, v: VariableModel, k: int)
    requires
        0 <= k <= vars.len(),
        forall|j: int| 0 <= j < k ==> vars[j] != v,
    ensures
        k < vars.len() && vars[k] == v ==> position(vars, v) == Some(k as nat),
        k == vars.len() ==> position(vars, v) is None,
    decreases vars.len(),
{
    if vars.len() > 0 {
        let t = vars.drop_last();
        if k < vars.len() - 1 {
            assert forall|j: int| 0 <= j < k implies t[j] != v by {
                assert(t[j] == vars[j]);
            }
            lemma_position(t, v, k);
            if vars[k] == v {
                assert(t[k] == vars[k]);
            }
        } else {
            assert forall|j: int| 0 <= j < t.len() implies t[j] != v by {
                assert(t[j] == vars[j]);
            }
            lemma_position(t, v, t.len() as int);
        }
    }
}

impl StackAllocator {
    pub fn new() -> (r: StackAllocator)
        ensures
            r@ == Seq::<VariableModel>::empty(),
    {
        let r = StackAllocator { variables: Vec::new() };
        assert(r@ =~= Seq::<VariableModel>::empty());
        r
    }

    /// The slot index of `variable`, adding it where it is new.
    fn index_of(&mut self, variable: Variable) -> (r: usize)
        ensures
            (final(self)@, r as nat) == slot_spec(old(self)@, variable@),
            r <= old(self)@.len(),
            final(self)@.len() <= old(self)@.len() + 1,
    {
        let ghost vars = self@;
        let mut i: usize = 0;
        while i < self.variables.len()
            invariant
                self@ == vars,
                0 <= i <= self.variables.len(),
                forall|j: int| 0 <= j < i ==> vars[j] != variable@,
            decreases self.variables.len() - i,
        {
            if self.variables[i].same_as(&variable) {
                proof {
                    lemma_position(vars, variable@, i as int);
                }
                return i;
            }
            i = i + 1;
        }
        proof {
            lemma_position(vars, variable@, i as int);
        }
        let index = self.variables.len();
        self.variables.push(variable);
        assert(self@ =~= vars.push(variable@));
        index
    }

    /// The byte offset of the slot of `variable`.
    fn offset_for(&mut self, variable: Variable) -> (r: u32)
        requires
            slot_room(old(self)@),
        ensures
            (final(self)@, r) == ({
                let (vs, i) = slot_spec(old(self)@, variable@);
                (vs, (4 * i) as u32)
            }),
            final(self)@.len() <= old(self)@.len() + 1,
    {
        let index = self.index_of(variable);
        (index as u32) * 4
    }

    /// The operand for a three-address value.
    fn operand_for(&mut self, val: &Val) -> (r: Operand)
        requires
            slot_room(old(self)@),
        ensures
            (final(self)@, r) == operand_spec(old(self)@, val@),
            final(self)@.len() <= old(self)@.len() + 1,
    {
        match val {
            Val::Constant(c) => Operand::Imm(*c),
            Val::Var(v) => Operand::Stack(self.offset_for(v.duplicate())),
        }
    }
}

fn unary_operator_to_asm(op: tacky::UnaryOperator) -> (r: assembly::UnaryOperator)
    ensures
        r == unary_to_asm(op),
{
    match op {
        tacky::UnaryOperator::Negate => assembly::UnaryOperator::Neg,
        tacky::UnaryOperator::Complement => assembly::UnaryOperator::Complement,
        tacky::UnaryOperator::Not => assembly::UnaryOperator::Not,
    }
}

fn comparison_operator_to_asm(op: tacky::ComparisonOperator) -> (r: ComparisonOperator)
    ensures
        r == comparison_to_asm(op),
{
    match op {
        tacky::ComparisonOperator::Equal => ComparisonOperator::Equal,
        tacky::ComparisonOperator::NotEqual => ComparisonOperator::NotEqual,
        tacky::ComparisonOperator::LessThan => ComparisonOperator::LessThan,
        tacky::ComparisonOperator::LessThanOrEqual => ComparisonOperator::LessThanOrEqual,
        tacky::ComparisonOperator::GreaterThan => ComparisonOperator::GreaterThan,
        tacky::ComparisonOperator::GreaterThanOrEqual => ComparisonOperator::GreaterThanOrEqual,
    }
}

fn binary_operator_to_asm(op: tacky::BinaryOperator) -> (r: Option<assembly::BinaryOperator>)
    ensures
        r == binary_to_asm(op),
{
    match op {
        tacky::BinaryOperator::Add => Some(assembly::BinaryOperator::Add),
        tacky::BinaryOperator::Sub => Some(assembly::BinaryOperator::Sub),
        tacky::BinaryOperator::Mul => Some(assembly::BinaryOperator::Mul),
        tacky::BinaryOperator::And => Some(assembly::BinaryOperator::And),
        tacky::BinaryOperator::Or => Some(assembly::BinaryOperator::Or),
        tacky::BinaryOperator::LeftShift => Some(assembly::BinaryOperator::LeftShift),
        tacky::BinaryOperator::RightShift => Some(assembly::BinaryOperator::RightShift),
        _ => None,
    }
}

/// Room for three more slots.
pub open spec fn room_for_three(vars: Seq<VariableModel>) -> bool {
    4 * (vars.len() + 3) <= u32::MAX
}

/// Select the assembly for one three-address instruction and append it to `out`.
fn select(alloc: &mut StackAllocator, i: &tacky::Instruction, out: &mut Vec<Instruction>)
    requires
        room_for_three(old(alloc)@),
    ensures
        final(alloc)@ == select_spec(old(alloc)@, i@).0,
        instructions_model(final(out)@) == instructions_model(old(out)@) + select_spec(old(alloc)@, i@).1,
        final(alloc)@.len() <= old(alloc)@.len() + 3,
{
    let ghost start = instructions_model(out@);
    match i {
        tacky::Instruction::Return(v) => {
            let src = alloc.operand_for(v);
            out.push(Instruction::Mov { src, dst: Operand::Register(Register::AX) });
            out.push(Instruction::Ret);
        },
        tacky::Instruction::Unary { op, src, dst } => {
            let op = unary_operator_to_asm(*op);
            let src = alloc.operand_for(src);
            let dst = alloc.operand_for(dst);
            out.push(Instruction::Mov { src, dst });
            out.push(Instruction::Unary { op, operand: dst });
        },
        tacky::Instruction::Binary { op, left_src, right_src, dst } => {
            let l = alloc.operand_for(left_src);
            let r = alloc.operand_for(right_src);
            let d = alloc.operand_for(dst);
            match binary_operator_to_asm(*op) {
                Some(aop) => {
                    out.push(Instruction::Mov { src: l, dst: Operand::Register(Register::R10) });
                    out.push(
                        Instruction::Binary { op: aop, src: r, dst: Operand::Register(Register::R10) },
                    );
                    out.push(Instruction::Mov { src: Operand::Register(Register::R10), dst: d });
                },
                None => {
                    let result = match op {
                        tacky::BinaryOperator::Mod => Register::DX,
                        _ => Register::AX,
                    };
                    out.push(Instruction::Mov { src: l, dst: Operand::Register(Register::AX) });
                    out.push(Instruction::Cdq);
                    out.push(Instruction::Idiv { src: r });
                    out.push(Instruction::Mov { src: Operand::Register(result), dst: d });
                },
            }
        },
        tacky::Instruction::Comparison { op, left_src, right_src, dst } => {
            let l = alloc.operand_for(left_src);
            let r = alloc.operand_for(right_src);
            let d = alloc.operand_for(dst);
            out.push(
                Instruction::Comparison {
                    op: comparison_operator_to_asm(*op),
                    left: l,
                    right: r,
                    dst: d,
                },
            );
        },
        tacky::Instruction::Copy { src, dst } => {
            let s = alloc.operand_for(src);
            let d = alloc.operand_for(dst);
            out.push(Instruction::Mov { src: s, dst: d });
        },
        tacky::Instruction::Jump { target } => {
            out.push(Instruction::Jump { target: target.duplicate() });
        },
        tacky::Instruction::Label(t) => {
            out.push(Instruction::Label(t.duplicate()));
        },
        tacky::Instruction::JumpIfZero { condition, target } => {
            let c = alloc.operand_for(condition);
            out.push(Instruction::JumpIfZero { condition: c, target: target.duplicate() });
        },
        tacky::Instruction::JumpIfNotZero { condition, target } => {
            let c = alloc.operand_for(condition);
            out.push(Instruction::JumpIfNotZero { condition: c, target: target.duplicate() });
        },
    }
    assert(instructions_model(out@) =~= start + select_spec(old(alloc)@, i@).1);
}

/// A function is small enough for its stack slots to have `u32` offsets.
pub open spec fn codegen_within_limits(f: tacky::FunctionModel) -> bool {
    12 * (f.instructions.len() + 1) <= u32::MAX
}

/// Lower a three-address function to assembly, placing every variable in a
/// stack slot.
pub fn to_assembly(function: &tacky::FunctionDefinition) -> (r: assembly::FunctionDefinition)
    requires
        codegen_within_limits(function@),
    ensures
        r@ == to_assembly_spec(function@),
{
    let mut instructions: Vec<Instruction> = Vec::new();
    let mut alloc = StackAllocator::new();
    let ghost tac = function@.instructions;
    let mut i: usize = 0;
    while i < function.instructions.len()
        invariant
            0 <= i <= function.instructions.len(),
            tac == function@.instructions,
            tac.len() == function.instructions@.len(),
            codegen_within_limits(function@),
            (alloc@, instructions_model(instructions@)) == select_all_spec(tac.subrange(0, i as int)),
            alloc@.len() <= 3 * i,
        decreases function.instructions.len() - i,
    {
        assert(tac.subrange(0, i as int + 1).drop_last() =~= tac.subrange(0, i as int));
        assert(tac.subrange(0, i as int + 1).last() == function.instructions@[i as int]@);
        select(&mut alloc, &function.instructions[i], &mut instructions);
        i = i + 1;
    }
    assert(tac.subrange(0, i as int) =~= tac);
    let count = alloc.variables.len();
    if count > 0 {
        let ghost body = instructions_model(instructions@);
        instructions.insert(0, Instruction::AllocateStack((count as u32) * 4));
        assert(instructions_model(instructions@) =~= seq![
            InstructionModel::AllocateStack((4 * alloc@.len()) as u32),
        ] + body);
    }
    assembly::FunctionDefinition {
        name: function.name.duplicate(),
        instructions,
        span: function.span,
    }
}

/// Rewrite the instructions whose operands the target cannot encode:
/// memory-to-memory moves, division by an immediate, and comparisons with an
/// immediate and a second operand in memory or another immediate.
pub fn fix_up_instructions(function: assembly::FunctionDefinition) -> (r: assembly::FunctionDefinition)
    ensures
        r@ == (assembly::FunctionModel {
            instructions: fix_up_spec(function@.instructions),
            ..function@
        }),
{
    let ghost input = function@.instructions;
    let mut instructions: Vec<Instruction> = Vec::new();
    let mut i: usize = 0;
    while i < function.instructions.len()
        invariant
            0 <= i <= function.instructions.len(),
            input == function@.instructions,
            input.len() == function.instructions@.len(),
            instructions_model(instructions@) == fix_up_spec(input.subrange(0, i as int)),
        decreases function.instructions.len() - i,
    {
        assert(input.subrange(0, i as int + 1).drop_last() =~= input.subrange(0, i as int));
        let ghost before = instructions_model(instructions@);
        let instruction = &function.instructions[i];
        assert(input.subrange(0, i as int + 1).last() == instruction@);
        match instruction {
            Instruction::Mov { src: Operand::Stack(a), dst: Operand::Stack(b) } => {
                instructions.push(
                    Instruction::Mov { src: Operand::Stack(*a), dst: Operand::Register(Register::R10) },
                );
                instructions.push(
                    Instruction::Mov { src: Operand::Register(Register::R10), dst: Operand::Stack(*b) },
                );
            },
            Instruction::Idiv { src: Operand::Imm(c) } => {
                instructions.push(
                    Instruction::Mov { src: Operand::Imm(*c), dst: Operand::Register(Register::R10) },
                );
                instructions.push(Instruction::Idiv { src: Operand::Register(Register::R10) });
            },
            Instruction::Comparison { op, left: left @ Operand::Imm(_), right: right @ Operand::Imm(_), dst }
            | Instruction::Comparison { op, left: left @ Operand::Stack(_), right: right @ Operand::Imm(_), dst } => {
                instructions.push(Instruction::Mov { src: *left, dst: Operand::Register(Register::R10) });
                instructions.push(
                    Instruction::Comparison {
                        op: *op,
                        left: Operand::Register(Register::R10),
                        right: *right,
                        dst: *dst,
                    },
                );
            },
            Instruction::Comparison { op, left: left @ Operand::Imm(_), right: right @ Operand::Stack(_), dst } => {
                instructions.push(Instruction::Mov { src: *right, dst: Operand::Register(Register::R10) });
                instructions.push(
                    Instruction::Comparison {
                        op: *op,
                        left: Operand::Register(Register::R10),
                        right: *left,
                        dst: *dst,
                    },
                );
            },
            other => {
                instructions.push(duplicate_instruction(other));
            },
        }
        assert(instructions_model(instructions@) =~= before + fix_up_one(instruction@));
        i = i + 1;
    }
    assert(input.subrange(0, i as int) =~= input);
    assembly::FunctionDefinition { name: function.name, instructions, span: function.span }
}

/// A copy of an instruction with the same model.
fn duplicate_instruction(i: &Instruction) -> (r: Instruction)
    ensures
        r@ == i@,
{
    match i {
        Instruction::Mov { src, dst } => Instruction::Mov { src: *src, dst: *dst },
        Instruction::Unary { op, operand } => Instruction::Unary { op: *op, operand: *operand },
        Instruction::Binary { op, src, dst } => Instruction::Binary { op: *op, src: *src, dst: *dst },
        Instruction::Idiv { src } => Instruction::Idiv { src: *src },
        Instruction::Cdq => Instruction::Cdq,
        Instruction::AllocateStack(n) => Instruction::AllocateStack(*n),
        Instruction::Ret => Instruction::Ret,
        Instruction::Label(t) => Instruction::Label(t.duplicate()),
        Instruction::Jump { target } => Instruction::Jump { target: target.duplicate() },
        Instruction::JumpIfZero { condition, target } => Instruction::JumpIfZero {
            condition: *condition,
            target: target.duplicate(),
        },
        Instruction::JumpIfNotZero { condition, target } => Instruction::JumpIfNotZero {
            condition: *condition,
            target: target.duplicate(),
        },
        Instruction::Comparison { op, left, right, dst } => Instruction::Comparison {
            op: *op,
            left: *left,
            right: *right,
            dst: *dst,
        },
    }
}

/// Every function of `p` is small enough for code generation.
pub open spec fn program_within_limits(p: tacky::ProgramModel) -> bool {
    forall|i: int| 0 <= i < p.functions.len() ==> codegen_within_limits(#[trigger] p.functions[i])
}

/// Whether every function of `program` is small enough for [`generate_assembly`].
pub fn fits_codegen_limits(program: &tacky::Program) -> (r: bool)
    ensures
        r == program_within_limits(program@),
{
    let mut i: usize = 0;
    while i < program.functions.len()
        invariant
            0 <= i <= program.functions.len(),
            forall|j: int| 0 <= j < i ==> codegen_within_limits(#[trigger] program@.functions[j]),
        decreases program.functions.len() - i,
    {
        assert(program@.functions[i as int] == program.functions@[i as int]@);
        if program.functions[i].instructions.len() > 0x1555_5554 {
            assert(!codegen_within_limits(program@.functions[i as int]));
            return false;
        }
        i = i + 1;
    }
    true
}

/// Generate assembly for every function of a three-address program.
pub fn generate_assembly(program: &tacky::Program) -> (r: assembly::Program)
    requires
        program_within_limits(program@),
    ensures
        r@ == generate_assembly_spec(program@),
{
    let ghost fs = program@.functions;
    let mut functions: Vec<assembly::FunctionDefinition> = Vec::new();
    let mut i: usize = 0;
    while i < program.functions.len()
        invariant
            0 <= i <= program.functions.len(),
            fs == program@.functions,
            fs.len() == program.functions@.len(),
            program_within_limits(program@),
            functions@.map_values(|f: assembly::FunctionDefinition| f@) =~= fs.subrange(
                0,
                i as int,
            ).map_values(|f| lower_function_spec(f)),
        decreases program.functions.len() - i,
    {
        assert(fs[i as int] == program.functions@[i as int]@);
        let lowered = fix_up_instructions(to_assembly(&program.functions[i]));
        let ghost prev = functions@;
        functions.push(lowered);
        assert(functions@.map_values(|f: assembly::FunctionDefinition| f@) =~= prev.map_values(
            |f: assembly::FunctionDefinition| f@,
        ).push(lower_function_spec(fs[i as int])));
        assert(fs.subrange(0, i as int + 1).map_values(|f| lower_function_spec(f)) =~= fs.subrange(
            0,
            i as int,
        ).map_values(|f| lower_function_spec(f)).push(lower_function_spec(fs[i as int])));
        i = i + 1;
    }
    assert(fs.subrange(0, i as int) =~= fs);
    assembly::Program { functions }
}

} // verus!
