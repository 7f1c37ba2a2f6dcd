use mcc::assembly::{self, Operand, Register};
use mcc::ast::{BinaryOp, Expression, FunctionDefinition, Item, Statement, TranslationUnit, UnaryOp};
use mcc::codegen::{fix_up_instructions, generate_assembly, to_assembly};
use mcc::codes::ErrorCodes;
use mcc::command::{check_status, CommandError};
use mcc::engine::{Database, NodeId, NodeIdGenerator, SourceFile};
use mcc::diagnostics::Severity;
use mcc::lowering::lower;
use mcc::pipeline::{compile, start, step, Action, CompileError, Decision, DriverState, Event, Finish, Stage, StopAt};
use mcc::render::{render_program, TargetOs};
use mcc::tacky::{self, Val, Variable};
use mcc::text::{Span, Text};

fn sp() -> Span {
    Span::new(0, 0)
}

fn num(s: &str) -> Expression {
    Expression::NumberLiteral { text: Text::new(s), span: sp() }
}

fn unary(op: UnaryOp, e: Expression) -> Expression {
    Expression::Unary { op, argument: Box::new(e), span: sp() }
}

fn bin(op: BinaryOp, l: Expression, r: Expression) -> Expression {
    Expression::Binary { op, left: Box::new(l), right: Box::new(r), span: sp() }
}

fn paren(e: Expression) -> Expression {
    Expression::Parenthesized { inner: Some(Box::new(e)), span: sp() }
}

fn function(name: &str, e: Expression, span: Span) -> Item {
    Item::Function(FunctionDefinition {
        name: Some(Text::new(name)),
        body: Some(vec![Statement::Return { value: Some(e), span }]),
        span,
    })
}

fn main_returning(e: Expression) -> TranslationUnit {
    TranslationUnit { items: vec![function("main", e, Span::new(0, 28))], span: Span::new(0, 28) }
}

fn anon(i: u32) -> Val {
    Val::Var(Variable::Anonymous(i))
}

fn text_of(unit: &TranslationUnit, os: TargetOs) -> String {
    match compile(unit, os) {
        Ok(t) => t.as_str().to_string(),
        Err(e) => panic!("compilation failed: {:?}", e),
    }
}

#[test]
fn simplest_program() {
    let unit = main_returning(num("0"));
    let (program, diags) = lower(&unit);
    assert!(diags.is_empty());
    let assembly = generate_assembly(&program);
    assert_eq!(assembly.functions.len(), 1);
    let f = &assembly.functions[0];
    assert_eq!(f.name.as_str(), "main");
    assert_eq!(
        f.instructions,
        vec![
            assembly::Instruction::Mov { src: Operand::Imm(0), dst: Operand::Register(Register::AX) },
            assembly::Instruction::Ret,
        ]
    );
}

#[test]
fn return_zero_renders_for_linux() {
    let expected = ".globl main\nmain:\npushq %rbp\nmovq %rsp, %rbp\n  movl $0, %eax\n  movq %rbp, %rsp\npopq %rbp\nret\n\n.section .note.GNU-stack, \"\", @progbits\n";
    assert_eq!(text_of(&main_returning(num("0")), TargetOs::Linux), expected);
}

#[test]
fn return_forty_two_renders_for_darwin() {
    let expected = ".globl _main\n_main:\npushq %rbp\nmovq %rsp, %rbp\n  movl $42, %eax\n  movq %rbp, %rsp\npopq %rbp\nret\n\n";
    assert_eq!(text_of(&main_returning(num("42")), TargetOs::Darwin), expected);
}

#[test]
fn negate_complement_lowers_to_two_unaries() {
    let unit = main_returning(unary(UnaryOp::Minus, paren(unary(UnaryOp::BitNot, num("5")))));
    let (program, diags) = lower(&unit);
    assert!(diags.is_empty());
    assert_eq!(
        program.functions[0].instructions,
        vec![
            tacky::Instruction::Unary { op: tacky::UnaryOperator::Complement, src: Val::Constant(5), dst: anon(0) },
            tacky::Instruction::Unary { op: tacky::UnaryOperator::Negate, src: anon(0), dst: anon(1) },
            tacky::Instruction::Return(anon(1)),
        ]
    );
    let text = text_of(&unit, TargetOs::Other);
    assert!(text.contains("  subq $8, %rsp\n"));
    assert!(text.contains("  notl -4(%rbp)\n"));
    assert!(text.contains("  negl -8(%rbp)\n"));
}

#[test]
fn unary_plus_is_a_no_op() {
    let unit = main_returning(unary(UnaryOp::Plus, num("3")));
    let (program, _) = lower(&unit);
    assert_eq!(program.functions[0].instructions, vec![tacky::Instruction::Return(Val::Constant(3))]);
}

#[test]
fn precedence_tree_lowers_in_order() {
    let unit = main_returning(bin(BinaryOp::Add, num("2"), bin(BinaryOp::Mul, num("3"), num("4"))));
    let (program, diags) = lower(&unit);
    assert!(diags.is_empty());
    assert_eq!(
        program.functions[0].instructions,
        vec![
            tacky::Instruction::Binary { op: tacky::BinaryOperator::Mul, left_src: Val::Constant(3), right_src: Val::Constant(4), dst: anon(0) },
            tacky::Instruction::Binary { op: tacky::BinaryOperator::Add, left_src: Val::Constant(2), right_src: anon(0), dst: anon(1) },
            tacky::Instruction::Return(anon(1)),
        ]
    );
}

#[test]
fn division_and_remainder_use_idiv() {
    let unit = main_returning(bin(
        BinaryOp::Add,
        bin(BinaryOp::Mul, paren(bin(BinaryOp::Div, num("10"), num("3"))), num("3")),
        bin(BinaryOp::Mod, num("10"), num("3")),
    ));
    let (program, diags) = lower(&unit);
    assert!(diags.is_empty());
    let assembly = generate_assembly(&program);
    let instrs = &assembly.functions[0].instructions;
    assert_eq!(instrs[0], assembly::Instruction::AllocateStack(16));
    // 10 / 3: the divisor is an immediate, so it goes through R10.
    assert_eq!(
        instrs[1..6].to_vec(),
        vec![
            assembly::Instruction::Mov { src: Operand::Imm(10), dst: Operand::Register(Register::AX) },
            assembly::Instruction::Cdq,
            assembly::Instruction::Mov { src: Operand::Imm(3), dst: Operand::Register(Register::R10) },
            assembly::Instruction::Idiv { src: Operand::Register(Register::R10) },
            assembly::Instruction::Mov { src: Operand::Register(Register::AX), dst: Operand::Stack(0) },
        ]
    );
    assert!(instrs.contains(&assembly::Instruction::Mov {
        src: Operand::Register(Register::DX),
        dst: Operand::Stack(8),
    }));
}

#[test]
fn logical_and_short_circuits() {
    let unit = main_returning(bin(BinaryOp::LogicalAnd, num("1"), num("0")));
    let (program, diags) = lower(&unit);
    assert!(diags.is_empty());
    assert_eq!(
        program.functions[0].instructions,
        vec![
            tacky::Instruction::JumpIfZero { condition: Val::Constant(1), target: Text::new("L0") },
            tacky::Instruction::Comparison {
                op: tacky::ComparisonOperator::NotEqual,
                left_src: Val::Constant(0),
                right_src: Val::Constant(0),
                dst: anon(3),
            },
            tacky::Instruction::Copy { src: anon(3), dst: anon(2) },
            tacky::Instruction::Jump { target: Text::new("L1") },
            tacky::Instruction::Label(Text::new("L0")),
            tacky::Instruction::Copy { src: Val::Constant(0), dst: anon(2) },
            tacky::Instruction::Label(Text::new("L1")),
            tacky::Instruction::Return(anon(2)),
        ]
    );
}

#[test]
fn logical_or_short_circuits() {
    let unit = main_returning(bin(BinaryOp::LogicalOr, num("0"), num("7")));
    let (program, diags) = lower(&unit);
    assert!(diags.is_empty());
    let instrs = &program.functions[0].instructions;
    assert_eq!(instrs[0], tacky::Instruction::JumpIfNotZero { condition: Val::Constant(0), target: Text::new("L0") });
    assert_eq!(instrs[5], tacky::Instruction::Copy { src: Val::Constant(1), dst: anon(2) });
    let text = text_of(&unit, TargetOs::Linux);
    assert!(text.contains("  movl $0, %eax\ntestl %eax, %eax\njnz L0\n"));
    assert!(text.contains("  L0:\n"));
}

#[test]
fn comparison_of_two_immediates_is_fixed_up() {
    let unit = main_returning(bin(BinaryOp::LessThan, num("1"), num("2")));
    let (program, _) = lower(&unit);
    let assembly = generate_assembly(&program);
    let instrs = &assembly.functions[0].instructions;
    assert_eq!(
        instrs[1..3].to_vec(),
        vec![
            assembly::Instruction::Mov { src: Operand::Imm(1), dst: Operand::Register(Register::R10) },
            assembly::Instruction::Comparison {
                op: assembly::ComparisonOperator::LessThan,
                left: Operand::Register(Register::R10),
                right: Operand::Imm(2),
                dst: Operand::Stack(0),
            },
        ]
    );
    let text = text_of(&unit, TargetOs::Other);
    assert!(text.contains("  cmpl $2, %r10d\nsetl %al\nmovzbl %al, %eax\nmovl %eax, -4(%rbp)\n"));
}

#[test]
fn extra_function_is_an_error() {
    let unit = TranslationUnit {
        items: vec![function("foo", num("0"), Span::new(0, 27)), function("main", num("0"), Span::new(28, 28))],
        span: Span::new(0, 56),
    };
    let (program, diags) = lower(&unit);
    assert_eq!(program.functions.len(), 2);
    assert_eq!(diags.len(), 1);
    assert_eq!(diags[0].severity, Severity::Error);
    assert_eq!(diags[0].message.as_str(), "Only a `main` function is supported");
    assert_eq!(diags[0].labels[0].span, Span::new(0, 27));
    match compile(&unit, TargetOs::Linux) {
        Err(CompileError::Diagnostics(d)) => assert_eq!(d, diags),
        other => panic!("unexpected {:?}", other),
    }
}

#[test]
fn missing_main_is_an_error() {
    let unit = TranslationUnit { items: vec![], span: Span::new(0, 5) };
    let (program, diags) = lower(&unit);
    assert!(program.functions.is_empty());
    assert_eq!(diags.len(), 1);
    assert_eq!(diags[0].message.as_str(), "The program must contain a valid `main` function");
}

#[test]
fn unsupported_constructs_are_reported() {
    let unit = TranslationUnit {
        items: vec![
            Item::Unsupported { kind: Text::new("declaration"), span: Span::new(0, 6) },
            Item::Function(FunctionDefinition {
                name: Some(Text::new("main")),
                body: Some(vec![
                    Statement::Unsupported { kind: Text::new("if_statement"), span: Span::new(7, 3) },
                    Statement::Return { value: None, span: Span::new(11, 7) },
                    Statement::Return { value: Some(bin(BinaryOp::BitXor, num("1"), num("2"))), span: Span::new(19, 9) },
                ]),
                span: Span::new(7, 21),
            }),
        ],
        span: Span::new(0, 28),
    };
    let (program, diags) = lower(&unit);
    assert_eq!(program.functions.len(), 1);
    assert!(program.functions[0].instructions.is_empty());
    let severities: Vec<Severity> = diags.iter().map(|d| d.severity).collect();
    assert_eq!(severities, vec![Severity::Bug, Severity::Bug, Severity::Bug, Severity::Bug]);
    assert_eq!(diags[0].message.as_str(), "Translation unit item not implemented");
    assert_eq!(diags[0].labels[0].message.as_str(), "declaration");
    assert_eq!(diags[3].message.as_str(), "Binary operator not implemented");
    assert!(diags.iter().all(|d| d.code.as_ref().map(|c| c.as_str()) == Some("type_check::unimplemented")));
}

#[test]
fn unsupported_literals_are_reported_as_unimplemented() {
    let unit = main_returning(num("2147483648"));
    let (program, diags) = lower(&unit);
    assert!(program.functions[0].instructions.is_empty());
    assert_eq!(diags.len(), 1);
    assert_eq!(diags[0].severity, Severity::Bug);
    assert_eq!(diags[0].code.as_ref().map(|c| c.as_str()), Some("type_check::unimplemented"));
    assert_eq!(diags[0].labels[0].message.as_str(), "number_literal");
    let (_, diags) = lower(&main_returning(num("0x10")));
    assert_eq!(diags.len(), 1);
    assert_eq!(diags[0].severity, Severity::Bug);
    // A program of one `main` gets no error from lowering, so the policy
    // goes on after lowering; the bug still stops it.
    assert!(diags.iter().all(|d| d.severity != Severity::Error));
    let (program, diags) = lower(&main_returning(num("2147483647")));
    assert!(diags.is_empty());
    assert_eq!(program.functions[0].instructions, vec![tacky::Instruction::Return(Val::Constant(2147483647))]);
}

#[test]
fn lowering_twice_gives_equal_results() {
    let unit = main_returning(bin(BinaryOp::LogicalOr, bin(BinaryOp::Equal, num("1"), num("2")), unary(UnaryOp::Not, num("3"))));
    let first = lower(&unit);
    let second = lower(&unit);
    assert_eq!(first, second);
    assert_eq!(generate_assembly(&first.0), generate_assembly(&second.0));
    assert_eq!(
        render_program(&generate_assembly(&first.0), TargetOs::Linux),
        render_program(&generate_assembly(&second.0), TargetOs::Linux)
    );
}

#[test]
fn anonymous_destinations_are_distinct() {
    let unit = main_returning(bin(
        BinaryOp::Sub,
        unary(UnaryOp::Minus, num("1")),
        bin(BinaryOp::RightShift, num("8"), bin(BinaryOp::BitOr, num("1"), num("2"))),
    ));
    let (program, _) = lower(&unit);
    let mut seen = Vec::new();
    for i in &program.functions[0].instructions {
        let dst = match i {
            tacky::Instruction::Unary { dst, .. } | tacky::Instruction::Binary { dst, .. } => dst.clone(),
            _ => continue,
        };
        assert!(!seen.contains(&dst));
        seen.push(dst);
    }
    assert_eq!(seen.len(), 4);
}

#[test]
fn every_jump_target_has_one_label() {
    let unit = main_returning(bin(
        BinaryOp::LogicalAnd,
        bin(BinaryOp::LogicalOr, num("0"), num("1")),
        bin(BinaryOp::LogicalAnd, num("2"), num("3")),
    ));
    let (program, diags) = lower(&unit);
    assert!(diags.is_empty());
    let instrs = &program.functions[0].instructions;
    for i in instrs {
        let target = match i {
            tacky::Instruction::Jump { target }
            | tacky::Instruction::JumpIfZero { target, .. }
            | tacky::Instruction::JumpIfNotZero { target, .. } => target,
            _ => continue,
        };
        let count = instrs.iter().filter(|j| **j == tacky::Instruction::Label(target.clone())).count();
        assert_eq!(count, 1);
    }
}

#[test]
fn stack_slots_are_consecutive() {
    let unit = main_returning(bin(BinaryOp::Add, bin(BinaryOp::Mul, num("1"), num("2")), bin(BinaryOp::Sub, num("3"), num("4"))));
    let (program, _) = lower(&unit);
    let assembly = generate_assembly(&program);
    let mut offsets = Vec::new();
    for i in &assembly.functions[0].instructions {
        let ops: Vec<Operand> = match i {
            assembly::Instruction::Mov { src, dst } => vec![*src, *dst],
            assembly::Instruction::Binary { src, dst, .. } => vec![*src, *dst],
            _ => vec![],
        };
        for o in ops {
            if let Operand::Stack(k) = o {
                if !offsets.contains(&k) {
                    offsets.push(k);
                }
            }
        }
    }
    offsets.sort();
    assert_eq!(offsets, vec![0, 4, 8]);
    assert_eq!(assembly.functions[0].instructions[0], assembly::Instruction::AllocateStack(12));
}

#[test]
fn fixed_up_code_has_legal_operands() {
    let unit = main_returning(bin(BinaryOp::Div, unary(UnaryOp::Minus, num("9")), num("3")));
    let (program, _) = lower(&unit);
    let assembly = generate_assembly(&program);
    for i in &assembly.functions[0].instructions {
        match i {
            assembly::Instruction::Mov { src: Operand::Stack(_), dst: Operand::Stack(_) } => panic!("memory to memory move"),
            assembly::Instruction::Idiv { src: Operand::Imm(_) } => panic!("division by an immediate"),
            assembly::Instruction::Comparison { left: Operand::Imm(_), right: Operand::Imm(_), .. } => panic!("two immediates"),
            _ => {}
        }
    }
    let text = text_of(&unit, TargetOs::Linux);
    assert!(text.contains("  movl $3, %r10d\n  idivl %r10d\n"));
}

#[test]
fn negative_immediates_render_with_sign() {
    let text = text_of(&main_returning(bin(BinaryOp::LogicalAnd, unary(UnaryOp::Minus, num("1")), num("2"))), TargetOs::Linux);
    assert!(text.contains("  movl $1, -4(%rbp)\n  negl -4(%rbp)\n"));
    assert!(text.contains("  movl -4(%rbp), %eax\ntestl %eax, %eax\njz L1\n"));
    let program = assembly::Program {
        functions: vec![assembly::FunctionDefinition {
            name: Text::new("main"),
            instructions: vec![
                assembly::Instruction::Mov { src: Operand::Imm(-5), dst: Operand::Register(Register::AX) },
                assembly::Instruction::Mov { src: Operand::Imm(i32::MIN), dst: Operand::Register(Register::DX) },
            ],
            span: sp(),
        }],
    };
    let text = render_program(&program, TargetOs::Other);
    assert_eq!(
        text.as_str(),
        ".globl main\nmain:\npushq %rbp\nmovq %rsp, %rbp\n  movl $-5, %eax\n  movl $-2147483648, %edx\n\n"
    );
}

#[test]
fn default_policy_decisions() {
    let stop = StopAt { lex: false, parse: false, tacky: true, codegen: false };
    assert_eq!(stop.decide(Stage::Parse, &vec![]), Decision::Continue);
    assert_eq!(stop.decide(Stage::Lower, &vec![]), Decision::Stop);
    let unit = TranslationUnit { items: vec![], span: sp() };
    let (_, diags) = lower(&unit);
    assert_eq!(stop.decide(Stage::Parse, &diags), Decision::Fail);
    let lex = StopAt { lex: true, ..StopAt::default() };
    assert_eq!(lex.decide(Stage::Parse, &vec![]), Decision::Stop);
    assert_eq!(Stage::Parse.next(), Some(Stage::Lower));
    assert_eq!(Stage::Compile.next(), None);
}

#[test]
fn spans_and_text() {
    let span = Span::new(4, 4);
    assert_eq!(span.end(), 8);
    assert_eq!(span.to_range(), 4..8);
    assert_eq!(span.lookup("int main(void)"), "main");
    assert_eq!(Text::new("abc").as_str(), "abc");
    assert!(Text::new("main").equals_str("main"));
    assert!(!Text::new("mainx").equals_str("main"));
}

#[test]
fn node_ids_start_at_one() {
    let mut ids = NodeIdGenerator::new();
    assert!(!NodeId::placeholder().is_valid());
    let a = ids.next_id();
    let b = ids.next_id();
    assert_eq!(a, NodeId(1));
    assert_eq!(b, NodeId(2));
    assert!(a.is_valid());
}

#[test]
fn session_caches_query_results() {
    let mut db = Database::new();
    let src = "int main(void) { return 2 + 3 * 4; }";
    let tree = main_returning(bin(BinaryOp::Add, num("2"), bin(BinaryOp::Mul, num("3"), num("4"))));
    let id = db.add_file(SourceFile { path: Text::new("main.c"), contents: Text::new(src), tree });
    assert!(db.lower(id));
    let first = db.lowered(id).clone();
    assert!(db.lower(id));
    assert_eq!(db.lowered(id), &first);
    assert!(db.generate(id));
    let code = db.assembly_of(id).clone();
    assert!(db.generate(id));
    assert_eq!(db.assembly_of(id), &code);
    assert_eq!(code, generate_assembly(&first.program));
}

#[test]
fn failed_command_keeps_its_status() {
    assert_eq!(check_status(Text::new("cc"), true, Some(0), Text::new("")), Ok(()));
    assert_eq!(
        check_status(Text::new("cc -c a.s"), false, None, Text::new("boom")),
        Err(CommandError::CompletedUnsuccessfully { cmd: Text::new("cc -c a.s"), status: 1, stderr: Text::new("boom") })
    );
    assert_eq!(
        check_status(Text::new("cc"), false, Some(3), Text::new("")),
        Err(CommandError::CompletedUnsuccessfully { cmd: Text::new("cc"), status: 3, stderr: Text::new("") })
    );
}

#[test]
fn error_codes_are_up_to_date() {
    let registry = ErrorCodes::all();
    assert_eq!(registry.codes.len(), 3);
    assert_eq!(registry.codes[0].name().as_str(), "parse::missing_token");
    assert_eq!(registry.codes[1].name().as_str(), "parse::unexpected_token");
    assert_eq!(registry.codes[0].severity, Severity::Error);
    assert_eq!(registry.codes[2].name().as_str(), "type_check::unimplemented");
    assert_eq!(registry.codes[2].severity, Severity::Bug);
    assert_eq!(registry.find("type_check::unimplemented"), Some(2));
    assert_eq!(registry.find("parse::unexpected_token"), Some(1));
    assert_eq!(registry.find("type_check"), None);
    // Every code that lowering attaches to a diagnostic is in the registry.
    let unit = main_returning(Expression::Unsupported { kind: Text::new("call_expression"), span: sp() });
    let (_, diags) = lower(&unit);
    for d in &diags {
        if let Some(code) = &d.code {
            assert!(registry.find(code.as_str()).is_some());
        }
    }
    assert!(diags.iter().any(|d| d.code.is_some()));
}

fn value_of(v: &Val, vars: &std::collections::HashMap<u32, i32>) -> i32 {
    match v {
        Val::Constant(c) => *c,
        Val::Var(Variable::Anonymous(i)) => vars[i],
        Val::Var(Variable::Named(_)) => panic!("no named variables here"),
    }
}

/// Run a three-address function and return what it returns.
fn run_tac(instrs: &[tacky::Instruction]) -> i32 {
    let mut vars = std::collections::HashMap::new();
    let mut pc = 0;
    let jump = |target: &Text| {
        instrs.iter().position(|i| *i == tacky::Instruction::Label(target.clone())).expect("label")
    };
    loop {
        match &instrs[pc] {
            tacky::Instruction::Return(v) => return value_of(v, &vars),
            tacky::Instruction::Unary { op, src, dst } => {
                let x = value_of(src, &vars);
                let r = match op {
                    tacky::UnaryOperator::Negate => x.wrapping_neg(),
                    tacky::UnaryOperator::Complement => !x,
                    tacky::UnaryOperator::Not => (x == 0) as i32,
                };
                if let Val::Var(Variable::Anonymous(d)) = dst {
                    vars.insert(*d, r);
                }
            }
            tacky::Instruction::Comparison { op, left_src, right_src, dst } => {
                let (a, b) = (value_of(left_src, &vars), value_of(right_src, &vars));
                let r = match op {
                    tacky::ComparisonOperator::Equal => a == b,
                    tacky::ComparisonOperator::NotEqual => a != b,
                    tacky::ComparisonOperator::LessThan => a < b,
                    tacky::ComparisonOperator::LessThanOrEqual => a <= b,
                    tacky::ComparisonOperator::GreaterThan => a > b,
                    tacky::ComparisonOperator::GreaterThanOrEqual => a >= b,
                } as i32;
                if let Val::Var(Variable::Anonymous(d)) = dst {
                    vars.insert(*d, r);
                }
            }
            tacky::Instruction::Copy { src, dst } => {
                let r = value_of(src, &vars);
                if let Val::Var(Variable::Anonymous(d)) = dst {
                    vars.insert(*d, r);
                }
            }
            tacky::Instruction::Jump { target } => {
                pc = jump(target);
                continue;
            }
            tacky::Instruction::JumpIfZero { condition, target } => {
                if value_of(condition, &vars) == 0 {
                    pc = jump(target);
                    continue;
                }
            }
            tacky::Instruction::JumpIfNotZero { condition, target } => {
                if value_of(condition, &vars) != 0 {
                    pc = jump(target);
                    continue;
                }
            }
            tacky::Instruction::Label(_) => {}
            tacky::Instruction::Binary { .. } => panic!("not used here"),
        }
        pc += 1;
    }
}

/// An expression with value `n`, built without a negative literal.
fn integer(n: i32) -> Expression {
    if n < 0 {
        unary(UnaryOp::Minus, num(&(-n).to_string()))
    } else {
        num(&n.to_string())
    }
}

#[test]
fn short_circuit_results_match_c() {
    for a in [-3, 0, 1, 7] {
        for b in [-1, 0, 2] {
            let and = lower(&main_returning(bin(BinaryOp::LogicalAnd, integer(a), integer(b)))).0;
            let or = lower(&main_returning(bin(BinaryOp::LogicalOr, integer(a), integer(b)))).0;
            assert_eq!(run_tac(&and.functions[0].instructions), (a != 0 && b != 0) as i32);
            assert_eq!(run_tac(&or.functions[0].instructions), (a != 0 || b != 0) as i32);
        }
    }
    // Scenarios: `1 && 0` gives 0, `0 || 7` gives 1.
    let and = lower(&main_returning(bin(BinaryOp::LogicalAnd, num("1"), num("0")))).0;
    assert_eq!(run_tac(&and.functions[0].instructions), 0);
    let or = lower(&main_returning(bin(BinaryOp::LogicalOr, num("0"), num("7")))).0;
    assert_eq!(run_tac(&or.functions[0].instructions), 1);
}

#[test]
fn driver_runs_stages_in_order() {
    let (mut state, mut action) = start();
    assert_eq!(action, Action::Prepare);
    let mut seen = Vec::new();
    loop {
        match action {
            Action::Return(f) => {
                assert_eq!(f, Finish::Success);
                break;
            }
            Action::Run(s) => seen.push(s),
            Action::Prepare => {}
        }
        let next = step(state, Event::Continued);
        state = next.0;
        action = next.1;
    }
    assert_eq!(seen, vec![Stage::Parse, Stage::Lower, Stage::Codegen, Stage::RenderAssembly, Stage::Compile]);
    assert_eq!(state, DriverState::Done);
}

#[test]
fn driver_stops_on_break_and_failure() {
    assert_eq!(
        step(DriverState::Running(Stage::Lower), Event::Broke),
        (DriverState::Done, Action::Return(Finish::EarlyReturn))
    );
    assert_eq!(step(DriverState::Start, Event::Failed), (DriverState::Done, Action::Return(Finish::Failure)));
    assert_eq!(
        step(DriverState::Running(Stage::Compile), Event::Failed),
        (DriverState::Done, Action::Return(Finish::Failure))
    );
    assert_eq!(
        step(DriverState::Running(Stage::RenderAssembly), Event::Continued),
        (DriverState::Running(Stage::Compile), Action::Run(Stage::Compile))
    );
}

#[test]
fn selection_then_fix_up() {
    let unit = main_returning(bin(BinaryOp::Equal, num("1"), unary(UnaryOp::Not, num("2"))));
    let (program, _) = lower(&unit);
    let selected = to_assembly(&program.functions[0]);
    assert_eq!(selected.instructions[0], assembly::Instruction::AllocateStack(8));
    assert!(selected.instructions.contains(&assembly::Instruction::Comparison {
        op: assembly::ComparisonOperator::Equal,
        left: Operand::Imm(1),
        right: Operand::Stack(0),
        dst: Operand::Stack(4),
    }));
    let fixed = fix_up_instructions(selected);
    assert!(fixed.instructions.contains(&assembly::Instruction::Comparison {
        op: assembly::ComparisonOperator::Equal,
        left: Operand::Register(Register::R10),
        right: Operand::Imm(1),
        dst: Operand::Stack(4),
    }));
    assert_eq!(fixed, generate_assembly(&program).functions[0]);
}
