//! Rendering of the assembly IR as GNU (AT&T syntax) x86-64 assembly text.

use vstd::prelude::*;
use vstd::string::*;
use crate::assembly::{
    self, BinaryOperator, ComparisonOperator, Instruction, InstructionModel, Operand, Register,
    UnaryOperator,
};
use crate::text::{decimal, push_decimal, Text};

verus! {

/// The operating system of the target, as far as the rendered text depends on it.
#[derive(Debug, Copy, Clone, PartialEq, Eq, Hash, Structural)]
pub enum TargetOs {
    /// macOS and other Darwin systems: symbols take a leading underscore.
    Darwin,
    /// Linux: the output ends with a note that the stack is not executable.
    Linux,
    /// Any other system.
    Other,
}

/// A signed integer in decimal.
pub open spec fn int_text(n: i32) -> Seq<char> {
    if n < 0 {
        "-"@ + decimal((-n) as nat)
    } else {
        decimal(n as nat)
    }
}

pub open spec fn register_text(r: Register) -> Seq<char> {
    match r {
        Register::AX => "%eax"@,
        Register::DX => "%edx"@,
        Register::R10 => "%r10d"@,
    }
}

/// An operand: `$n`, a register, or the slot `k` as `-(k+4)(%rbp)`.
pub open spec fn operand_text(o: Operand) -> Seq<char> {
    match o {
        Operand::Imm(n) => "$"@ + int_text(n),
        Operand::Register(r) => register_text(r),
        Operand::Stack(k) => "-"@ + decimal((k + 4) as nat) + "(%rbp)"@,
    }
}

pub open spec fn unary_mnemonic(op: UnaryOperator) -> Seq<char> {
    match op {
        UnaryOperator::Neg => "negl"@,
        UnaryOperator::Complement => "notl"@,
        UnaryOperator::Not => "cmpl $0, "@,
    }
}

pub open spec fn binary_mnemonic(op: BinaryOperator) -> Seq<char> {
    match op {
        BinaryOperator::Add => "addl"@,
        BinaryOperator::Sub => "subl"@,
        BinaryOperator::Mul => "imull"@,
        BinaryOperator::And => "andl"@,
        BinaryOperator::Or => "orl"@,
        BinaryOperator::LeftShift => "shll"@,
        BinaryOperator::RightShift => "shrl"@,
    }
}

/// The condition code of `set<cc>` for a comparison.
pub open spec fn condition_code(op: ComparisonOperator) -> Seq<char> {
    match op {
        ComparisonOperator::Equal => "e"@,
        ComparisonOperator::NotEqual => "ne"@,
        ComparisonOperator::LessThan => "l"@,
        ComparisonOperator::LessThanOrEqual => "le"@,
        ComparisonOperator::GreaterThan => "g"@,
        ComparisonOperator::GreaterThanOrEqual => "ge"@,
    }
}

/// Load a conditional jump's operand and test it against itself: immediates
/// and stack slots go through `%eax` first.
pub open spec fn test_text(c: Operand) -> Seq<char> {
    match c {
        Operand::Register(_) => "testl "@ + operand_text(c) + ", "@ + operand_text(c) + "\n"@,
        _ => "movl "@ + operand_text(c) + ", %eax"@ + "\n"@ + "testl %eax, %eax"@ + "\n"@,
    }
}

/// The text of one instruction, each line ending in a newline.
pub open spec fn instruction_text(i: InstructionModel) -> Seq<char> {
    match i {
        InstructionModel::AllocateStack(n) => "subq $"@ + decimal(n as nat) + ", %rsp\n"@,
        InstructionModel::Mov { src, dst } => "movl "@ + operand_text(src) + ", "@ + operand_text(
            dst,
        ) + "\n"@,
        InstructionModel::Unary { op: UnaryOperator::Not, operand } => "cmpl $0, "@
            + operand_text(operand) + "\n"@ + "sete %al"@ + "\n"@ + "movb %al, "@ + operand_text(
            operand,
        ) + "\n"@,
        InstructionModel::Unary { op, operand } => unary_mnemonic(op) + " "@ + operand_text(
            operand,
        ) + "\n"@,
        InstructionModel::Ret => "movq %rbp, %rsp\n"@ + "popq %rbp\n"@ + "ret\n"@,
        InstructionModel::Binary { op, src, dst } => binary_mnemonic(op) + " "@ + operand_text(src)
            + ", "@ + operand_text(dst) + "\n"@,
        InstructionModel::Comparison { op, left, right, dst } => {
            let both_stack = left is Stack && right is Stack;
            let load = if both_stack {
                "movl "@ + operand_text(left) + ", %eax"@ + "\n"@
            } else {
                Seq::empty()
            };
            let l = if both_stack {
                Operand::Register(Register::AX)
            } else {
                left
            };
            load + "cmpl "@ + operand_text(right) + ", "@ + operand_text(l) + "\n"@ + "set"@
                + condition_code(op) + " %al"@ + "\n"@ + "movzbl %al, %eax"@ + "\n"@
                + "movl %eax, "@ + operand_text(dst) + "\n"@
        },
        InstructionModel::Idiv { src } => "idivl "@ + operand_text(src) + "\n"@,
        InstructionModel::Cdq => "cdq\n"@,
        InstructionModel::Label(t) => t + ":\n"@,
        InstructionModel::Jump { target } => "jmp "@ + target + "\n"@,
        InstructionModel::JumpIfZero { condition, target } => test_text(condition) + "jz "@
            + target + "\n"@,
        InstructionModel::JumpIfNotZero { condition, target } => test_text(condition) + "jnz "@
            + target + "\n"@,
    }
}

/// The symbol for a function name: Darwin prefixes an underscore.
pub open spec fn symbol_text(name: Seq<char>, os: TargetOs) -> Seq<char> {
    if os == TargetOs::Darwin {
        "_"@ + name
    } else {
        name
    }
}

/// The instructions of a function body, each indented by two spaces.
pub open spec fn body_text(instrs: Seq<InstructionModel>) -> Seq<char>
    decreases instrs.len(),
{
    if instrs.len() == 0 {
        Seq::empty()
    } else {
        body_text(instrs.drop_last()) + "  "@ + instruction_text(instrs.last())
    }
}

/// A function: its symbol made global, its label, the frame set-up, and its body.
pub open spec fn function_text(f: assembly::FunctionModel, os: TargetOs) -> Seq<char> {
    let sym = symbol_text(f.name, os);
    ".globl "@ + sym + "\n"@ + sym + ":\n"@ + "pushq %rbp\n"@ + "movq %rsp, %rbp\n"@ + body_text(
        f.instructions,
    )
}

/// Every function followed by a blank line.
pub open spec fn functions_text(fs: Seq<assembly::FunctionModel>, os: TargetOs) -> Seq<char>
    decreases fs.len(),
{
    if fs.len() == 0 {
        Seq::empty()
    } else {
        functions_text(fs.drop_last(), os) + function_text(fs.last(), os) + "\n"@
    }
}

/// The closing section note of Linux targets.
pub open spec fn stack_note_text(os: TargetOs) -> Seq<char> {
    if os == TargetOs::Linux {
        ".section .note.GNU-stack, \"\", @progbits\n"@
    } else {
        Seq::empty()
    }
}

/// The text of a whole program for a target.
pub open spec fn render_program_spec(p: assembly::ProgramModel, os: TargetOs) -> Seq<char> {
    functions_text(p.functions, os) + stack_note_text(os)
}

/// Writes assembly text for one target into a growing string.
pub struct AssemblyRenderer {
    pub target: TargetOs,
    pub output: String,
}

impl AssemblyRenderer {
    pub fn new(target: TargetOs) -> (r: AssemblyRenderer)
        ensures
            r.target == target,
            r.output@ == Seq::<char>::empty(),
    {
        AssemblyRenderer { target, output: String::new() }
    }

    fn write(&mut self, s: &str)
        ensures
            final(self).output@ == old(self).output@ + s@,
            final(self).target == old(self).target,
    {
        self.output.append(s);
    }

    fn write_int(&mut self, n: i32)
        ensures
            final(self).output@ == old(self).output@ + int_text(n),
            final(self).target == old(self).target,
    {
        if n < 0 {
            self.write("-");
            push_decimal(&mut self.output, (-(n as i64)) as u64);
            assert(self.output@ =~= old(self).output@ + int_text(n));
        } else {
            push_decimal(&mut self.output, n as u64);
        }
    }

    fn register(&mut self, r: Register)
        ensures
            final(self).output@ == old(self).output@ + register_text(r),
            final(self).target == old(self).target,
    {
        match r {
            Register::AX => self.write("%eax"),
            Register::DX => self.write("%edx"),
            Register::R10 => self.write("%r10d"),
        }
    }

    fn operand(&mut self, o: Operand)
        ensures
            final(self).output@ == old(self).output@ + operand_text(o),
            final(self).target == old(self).target,
    {
        match o {
            Operand::Imm(n) => {
                self.write("$");
                self.write_int(n);
            },
            Operand::Register(r) => self.register(r),
            Operand::Stack(k) => {
                self.write("-");
                push_decimal(&mut self.output, k as u64 + 4);
                self.write("(%rbp)");
            },
        }
        assert(self.output@ =~= old(self).output@ + operand_text(o));
    }

    fn unary_operator(&mut self, op: UnaryOperator)
        ensures
            final(self).output@ == old(self).output@ + unary_mnemonic(op),
            final(self).target == old(self).target,
    {
        match op {
            UnaryOperator::Neg => self.write("negl"),
            UnaryOperator::Complement => self.write("notl"),
            UnaryOperator::Not => self.write("cmpl $0, "),
        }
    }

    fn binary_operator(&mut self, op: BinaryOperator)
        ensures
            final(self).output@ == old(self).output@ + binary_mnemonic(op),
            final(self).target == old(self).target,
    {
        match op {
            BinaryOperator::Add => self.write("addl"),
            BinaryOperator::Sub => self.write("subl"),
            BinaryOperator::Mul => self.write("imull"),
            BinaryOperator::And => self.write("andl"),
            BinaryOperator::Or => self.write("orl"),
            BinaryOperator::LeftShift => self.write("shll"),
            BinaryOperator::RightShift => self.write("shrl"),
        }
    }

    fn condition_code(&mut self, op: ComparisonOperator)
        ensures
            final(self).output@ == old(self).output@ + condition_code(op),
            final(self).target == old(self).target,
    {
        match op {
            ComparisonOperator::Equal => self.write("e"),
            ComparisonOperator::NotEqual => self.write("ne"),
            ComparisonOperator::LessThan => self.write("l"),
            ComparisonOperator::LessThanOrEqual => self.write("le"),
            ComparisonOperator::GreaterThan => self.write("g"),
            ComparisonOperator::GreaterThanOrEqual => self.write("ge"),
        }
    }

    fn test_operand(&mut self, c: Operand)
        ensures
            final(self).output@ == old(self).output@ + test_text(c),
            final(self).target == old(self).target,
    {
        match c {
            Operand::Register(_) => {
                self.write("testl ");
                self.operand(c);
                self.write(", ");
                self.operand(c);
                self.write("\n");
            },
            _ => {
                self.write("movl ");
                self.operand(c);
                self.write(", %eax");
                self.write("\n");
                self.write("testl %eax, %eax");
                self.write("\n");
            },
        }
        assert(self.output@ =~= old(self).output@ + test_text(c));
    }

    fn render_comparison(&mut self, op: ComparisonOperator, left: Operand, right: Operand, dst: Operand)
        ensures
            final(self).output@ == old(self).output@ + instruction_text(
                InstructionModel::Comparison { op, left, right, dst },
            ),
            final(self).target == old(self).target,
    {
        let l = match (left, right) {
            (Operand::Stack(_), Operand::Stack(_)) => {
                self.write("movl ");
                self.operand(left);
                self.write(", %eax");
                self.write("\n");
                Operand::Register(Register::AX)
            },
            _ => left,
        };
        self.write("cmpl ");
        self.operand(right);
        self.write(", ");
        self.operand(l);
        self.write("\n");
        self.write("set");
        self.condition_code(op);
        self.write(" %al");
        self.write("\n");
        self.write("movzbl %al, %eax");
        self.write("\n");
        self.write("movl %eax, ");
        self.operand(dst);
        self.write("\n");
        assert(self.output@ =~= old(self).output@ + instruction_text(
            InstructionModel::Comparison { op, left, right, dst },
        ));
    }

    fn render_unary(&mut self, op: UnaryOperator, operand: Operand)
        ensures
            final(self).output@ == old(self).output@ + instruction_text(
                InstructionModel::Unary { op, operand },
            ),
            final(self).target == old(self).target,
    {
        match op {
            UnaryOperator::Not => {
                self.write("cmpl $0, ");
                self.operand(operand);
                self.write("\n");
                self.write("sete %al");
                self.write("\n");
                self.write("movb %al, ");
                self.operand(operand);
                self.write("\n");
            },
            _ => {
                self.unary_operator(op);
                self.write(" ");
                self.operand(operand);
                self.write("\n");
            },
        }
        assert(self.output@ =~= old(self).output@ + instruction_text(
            InstructionModel::Unary { op, operand },
        ));
    }

    fn render_two_operands(&mut self, src: Operand, dst: Operand)
        ensures
            final(self).output@ == old(self).output@ + operand_text(src) + ", "@ + operand_text(dst)
                + "\n"@,
            final(self).target == old(self).target,
    {
        self.operand(src);
        self.write(", ");
        self.operand(dst);
        self.write("\n");
        assert(self.output@ =~= old(self).output@ + operand_text(src) + ", "@ + operand_text(dst)
            + "\n"@);
    }

    fn render_jump(&mut self, prefix: &str, target: &Text)
        ensures
            final(self).output@ == old(self).output@ + prefix@ + target@ + "\n"@,
            final(self).target == old(self).target,
    {
        self.write(prefix);
        self.write(target.as_str());
        self.write("\n");
        assert(self.output@ =~= old(self).output@ + prefix@ + target@ + "\n"@);
    }

    fn render_instruction(&mut self, i: &Instruction)
        ensures
            final(self).output@ == old(self).output@ + instruction_text(i@),
            final(self).target == old(self).target,
    {
        match i {
            Instruction::AllocateStack(n) => {
                self.write("subq $");
                push_decimal(&mut self.output, *n as u64);
                self.write(", %rsp\n");
                assert(self.output@ =~= old(self).output@ + instruction_text(i@));
            },
            Instruction::Mov { src, dst } => {
                self.write("movl ");
                self.render_two_operands(*src, *dst);
                assert(self.output@ =~= old(self).output@ + instruction_text(i@));
            },
            Instruction::Unary { op, operand } => self.render_unary(*op, *operand),
            Instruction::Ret => {
                self.write("movq %rbp, %rsp\n");
                self.write("popq %rbp\n");
                self.write("ret\n");
                assert(self.output@ =~= old(self).output@ + instruction_text(i@));
            },
            Instruction::Binary { op, src, dst } => {
                self.binary_operator(*op);
                self.write(" ");
                self.render_two_operands(*src, *dst);
                assert(self.output@ =~= old(self).output@ + instruction_text(i@));
            },
            Instruction::Comparison { op, left, right, dst } => {
                self.render_comparison(*op, *left, *right, *dst)
            },
            Instruction::Idiv { src } => {
                self.write("idivl ");
                self.operand(*src);
                self.write("\n");
                assert(self.output@ =~= old(self).output@ + instruction_text(i@));
            },
            Instruction::Cdq => {
                self.write("cdq\n");
            },
            Instruction::Label(t) => {
                self.write(t.as_str());
                self.write(":\n");
            },
            Instruction::Jump { target } => {
                self.render_jump("jmp ", target);
            },
            Instruction::JumpIfZero { condition, target } => {
                self.test_operand(*condition);
                self.render_jump("jz ", target);
                assert(self.output@ =~= old(self).output@ + instruction_text(i@));
            },
            Instruction::JumpIfNotZero { condition, target } => {
                self.test_operand(*condition);
                self.render_jump("jnz ", target);
                assert(self.output@ =~= old(self).output@ + instruction_text(i@));
            },
        }
    }

    /// Write the symbol for `name`: with a leading underscore on Darwin.
    fn function_name(&mut self, name: &Text)
        ensures
            final(self).output@ == old(self).output@ + symbol_text(name@, old(self).target),
            final(self).target == old(self).target,
    {
        match self.target {
            TargetOs::Darwin => {
                self.write("_");
                self.write(name.as_str());
            },
            _ => self.write(name.as_str()),
        }
        assert(self.output@ =~= old(self).output@ + symbol_text(name@, old(self).target));
    }

    /// Write one function: its global symbol, label, frame set-up and body.
    pub fn render_function(&mut self, function: &assembly::FunctionDefinition)
        ensures
            final(self).output@ == old(self).output@ + function_text(function@, old(self).target),
            final(self).target == old(self).target,
    {
        self.write(".globl ");
        self.function_name(&function.name);
        self.write("\n");
        self.function_name(&function.name);
        self.write(":\n");
        self.write("pushq %rbp\n");
        self.write("movq %rsp, %rbp\n");
        let ghost head = self.output@;
        let ghost instrs = function@.instructions;
        let mut i: usize = 0;
        while i < function.instructions.len()
            invariant
                0 <= i <= function.instructions.len(),
                instrs == function@.instructions,
                instrs.len() == function.instructions@.len(),
                self.target == old(self).target,
                self.output@ == head + body_text(instrs.subrange(0, i as int)),
            decreases function.instructions.len() - i,
        {
            assert(instrs.subrange(0, i as int + 1).drop_last() =~= instrs.subrange(0, i as int));
            assert(instrs.subrange(0, i as int + 1).last() == function.instructions@[i as int]@);
            self.write("  ");
            self.render_instruction(&function.instructions[i]);
            assert(self.output@ =~= head + body_text(instrs.subrange(0, i as int + 1)));
            i = i + 1;
        }
        assert(instrs.subrange(0, i as int) =~= instrs);
        assert(self.output@ =~= old(self).output@ + function_text(function@, old(self).target));
    }

    fn program(&mut self, program: &assembly::Program)
        ensures
            final(self).output@ == old(self).output@ + render_program_spec(program@, old(self).target),
            final(self).target == old(self).target,
    {
        let ghost fs = program@.functions;
        let mut i: usize = 0;
        while i < program.functions.len()
            invariant
                0 <= i <= program.functions.len(),
                fs == program@.functions,
                fs.len() == program.functions@.len(),
                self.target == old(self).target,
                self.output@ == old(self).output@ + functions_text(fs.subrange(0, i as int), self.target),
            decreases program.functions.len() - i,
        {
            assert(fs.subrange(0, i as int + 1).drop_last() =~= fs.subrange(0, i as int));
            assert(fs.subrange(0, i as int + 1).last() == program.functions@[i as int]@);
            self.render_function(&program.functions[i]);
            self.write("\n");
            assert(self.output@ =~= old(self).output@ + functions_text(
                fs.subrange(0, i as int + 1),
                self.target,
            ));
            i = i + 1;
        }
        assert(fs.subrange(0, i as int) =~= fs);
        match self.target {
            TargetOs::Linux => self.write(".section .note.GNU-stack, \"\", @progbits\n"),
            _ => {},
        }
        assert(self.output@ =~= old(self).output@ + render_program_spec(program@, old(self).target));
    }
}

/// Render a program as assembly text for the target.
pub fn render_program(program: &assembly::Program, target: TargetOs) -> (r: Text)
    ensures
        r@ == render_program_spec(program@, target),
{
    let mut renderer = AssemblyRenderer::new(target);
    renderer.program(program);
    assert(renderer.output@ =~= render_program_spec(program@, target));
    Text { value: renderer.output }
}

} // verus!
