//! Lowering of the syntax tree to three-address code, with short-circuit
//! evaluation of `&&` and `||`.

use vstd::prelude::*;
use crate::ast::{self, BinaryOp, Expression, Item, Statement, TranslationUnit, UnaryOp};
use crate::diagnostics::{
    diagnostics_model, labelled, unimplemented_code, Diagnostic, DiagnosticModel, Severity,
};
use crate::tacky::{
    instructions_model, BinaryOperator, ComparisonOperator, FunctionDefinition, FunctionModel,
    Instruction, InstructionModel, Program, ProgramModel, UnaryOperator, Val, ValModel, Variable,
    VariableModel,
};
use crate::text::{decimal, is_decimal, decimal_value, parse_decimal_i32, push_decimal, Span, Text};

verus! {

/// What lowering has produced so far inside one function: the instructions
/// emitted, the next fresh number, and the diagnostics reported.
pub struct LowerState {
    pub instructions: Seq<InstructionModel>,
    pub next: nat,
    pub diagnostics: Seq<DiagnosticModel>,
}

/// The state at the start of a function.
pub open spec fn initial_state() -> LowerState {
    LowerState { instructions: Seq::empty(), next: 0, diagnostics: Seq::empty() }
}

/// The name of the label drawn as fresh number `n`: `L` followed by `n` in decimal.
pub open spec fn label_name(n: nat) -> Seq<char> {
    seq!['L'] + decimal(n)
}

/// The temporary drawn as fresh number `n`.
pub open spec fn temp(n: nat) -> ValModel {
    ValModel::Var(VariableModel::Anonymous(n as u32))
}

pub open spec fn emit(s: LowerState, i: InstructionModel) -> LowerState {
    LowerState { instructions: s.instructions.push(i), ..s }
}

pub open spec fn report(s: LowerState, d: DiagnosticModel) -> LowerState {
    LowerState { diagnostics: s.diagnostics.push(d), ..s }
}

pub open spec fn advance(s: LowerState, k: nat) -> LowerState {
    LowerState { next: s.next + k, ..s }
}

/// The three-address arithmetic operator for a C operator, if it is one.
pub open spec fn arithmetic_operator(op: BinaryOp) -> Option<BinaryOperator> {
    match op {
        BinaryOp::Add => Some(BinaryOperator::Add),
        BinaryOp::Sub => Some(BinaryOperator::Sub),
        BinaryOp::Mul => Some(BinaryOperator::Mul),
        BinaryOp::Div => Some(BinaryOperator::Div),
        BinaryOp::Mod => Some(BinaryOperator::Mod),
        BinaryOp::BitAnd => Some(BinaryOperator::And),
        BinaryOp::BitOr => Some(BinaryOperator::Or),
        BinaryOp::LeftShift => Some(BinaryOperator::LeftShift),
        BinaryOp::RightShift => Some(BinaryOperator::RightShift),
        _ => None,
    }
}

/// The three-address comparison for a C operator, if it is one.
pub open spec fn comparison_operator(op: BinaryOp) -> Option<ComparisonOperator> {
    match op {
        BinaryOp::Equal => Some(ComparisonOperator::Equal),
        BinaryOp::NotEqual => Some(ComparisonOperator::NotEqual),
        BinaryOp::LessThan => Some(ComparisonOperator::LessThan),
        BinaryOp::LessThanOrEqual => Some(ComparisonOperator::LessThanOrEqual),
        BinaryOp::GreaterThan => Some(ComparisonOperator::GreaterThan),
        BinaryOp::GreaterThanOrEqual => Some(ComparisonOperator::GreaterThanOrEqual),
        _ => None,
    }
}

/// The three-address operator for a prefix operator; `+` has none.
pub open spec fn unary_operator(op: UnaryOp) -> Option<UnaryOperator> {
    match op {
        UnaryOp::Plus => None,
        UnaryOp::Minus => Some(UnaryOperator::Negate),
        UnaryOp::BitNot => Some(UnaryOperator::Complement),
        UnaryOp::Not => Some(UnaryOperator::Not),
    }
}

/// The diagnostic for a number literal that is not a decimal `int` (a hex,
/// octal, suffixed or out-of-range literal): not supported.
pub open spec fn invalid_literal(span: Span) -> DiagnosticModel {
    labelled(
        Severity::Bug,
        "Number literal not implemented"@,
        Some(unimplemented_code()),
        span,
        "number_literal"@,
    )
}

/// Lowering of `e` from state `s`: the new state, and the value holding the
/// result (`None` where a diagnostic stopped it).
pub open spec fn lower_expression_spec(e: Expression, s: LowerState) -> (LowerState, Option<ValModel>)
    decreases e,
{
    match e {
        Expression::NumberLiteral { text, span } => {
            if is_decimal(text@) && decimal_value(text@) <= i32::MAX {
                (s, Some(ValModel::Constant(decimal_value(text@) as i32)))
            } else {
                (report(s, invalid_literal(span)), None)
            }
        },
        Expression::Unary { op, argument, .. } => {
            let (s1, v) = lower_expression_spec(*argument, s);
            match v {
                None => (s1, None),
                Some(src) => {
                    let dst = temp(s1.next);
                    let s2 = advance(s1, 1);
                    match unary_operator(op) {
                        None => (s2, Some(src)),
                        Some(uop) => (
                            emit(s2, InstructionModel::Unary { op: uop, src, dst }),
                            Some(dst),
                        ),
                    }
                },
            }
        },
        Expression::Parenthesized { inner, span } => match inner {
            Some(i) => lower_expression_spec(*i, s),
            None => (
                report(
                    s,
                    labelled(
                        Severity::Bug,
                        "Unexpected item in parenthesized expression"@,
                        Some(unimplemented_code()),
                        span,
                        "parenthesized_expression"@,
                    ),
                ),
                None,
            ),
        },
        Expression::Unsupported { kind, span } => (
            report(
                s,
                labelled(
                    Severity::Bug,
                    "Expression not implemented"@,
                    Some(unimplemented_code()),
                    span,
                    kind@,
                ),
            ),
            None,
        ),
        Expression::Binary { op, left, right, span } => {
            let (s1, lv) = lower_expression_spec(*left, s);
            match lv {
                None => (s1, None),
                Some(l) => {
                    if op == BinaryOp::LogicalAnd || op == BinaryOp::LogicalOr {
                        let and = op == BinaryOp::LogicalAnd;
                        let short_label = label_name(s1.next);
                        let end_label = label_name(s1.next + 1);
                        let result = temp(s1.next + 2);
                        let test = if and {
                            InstructionModel::JumpIfZero { condition: l, target: short_label }
                        } else {
                            InstructionModel::JumpIfNotZero { condition: l, target: short_label }
                        };
                        let s2 = emit(advance(s1, 3), test);
                        let (s3, rv) = lower_expression_spec(*right, s2);
                        match rv {
                            None => (s3, None),
                            Some(r) => {
                                let right_bool = temp(s3.next);
                                let s4 = advance(s3, 1);
                                let tail = seq![
                                    InstructionModel::Comparison {
                                        op: ComparisonOperator::NotEqual,
                                        left_src: ValModel::Constant(0),
                                        right_src: r,
                                        dst: right_bool,
                                    },
                                    InstructionModel::Copy { src: right_bool, dst: result },
                                    InstructionModel::Jump { target: end_label },
                                    InstructionModel::Label(short_label),
                                    InstructionModel::Copy {
                                        src: ValModel::Constant(if and { 0 } else { 1 }),
                                        dst: result,
                                    },
                                    InstructionModel::Label(end_label),
                                ];
                                (
                                    LowerState { instructions: s4.instructions + tail, ..s4 },
                                    Some(result),
                                )
                            },
                        }
                    } else {
                        let (s2, rv) = lower_expression_spec(*right, s1);
                        match rv {
                            None => (s2, None),
                            Some(r) => {
                                let dst = temp(s2.next);
                                match arithmetic_operator(op) {
                                    Some(aop) => (
                                        emit(
                                            advance(s2, 1),
                                            InstructionModel::Binary {
                                                op: aop,
                                                left_src: l,
                                                right_src: r,
                                                dst,
                                            },
                                        ),
                                        Some(dst),
                                    ),
                                    None => match comparison_operator(op) {
                                        Some(cop) => (
                                            emit(
                                                advance(s2, 1),
                                                InstructionModel::Comparison {
                                                    op: cop,
                                                    left_src: l,
                                                    right_src: r,
                                                    dst,
                                                },
                                            ),
                                            Some(dst),
                                        ),
                                        None => (
                                            report(
                                                s2,
                                                labelled(
                                                    Severity::Bug,
                                                    "Binary operator not implemented"@,
                                                    Some(unimplemented_code()),
                                                    span,
                                                    "^"@,
                                                ),
                                            ),
                                            None,
                                        ),
                                    },
                                }
                            },
                        }
                    }
                },
            }
        },
    }
}

/// The diagnostic for a bare `return;`.
pub open spec fn bare_return(span: Span) -> DiagnosticModel {
    labelled(
        Severity::Bug,
        "Bare `return` statement not implemented"@,
        Some(unimplemented_code()),
        span,
        "return_statement"@,
    )
}

/// Lowering of one statement from state `s`.
pub open spec fn lower_statement_spec(st: Statement, s: LowerState) -> LowerState {
    match st {
        Statement::Return { value: Some(e), .. } => {
            let (s1, v) = lower_expression_spec(e, s);
            match v {
                Some(x) => emit(s1, InstructionModel::Return(x)),
                None => s1,
            }
        },
        Statement::Return { value: None, span } => report(s, bare_return(span)),
        Statement::Unsupported { kind, span } => report(
            s,
            labelled(
                Severity::Bug,
                "Statement not implemented"@,
                Some(unimplemented_code()),
                span,
                kind@,
            ),
        ),
    }
}

/// Lowering of a list of statements, in order, from state `s`.
pub open spec fn lower_statements_spec(sts: Seq<Statement>, s: LowerState) -> LowerState
    decreases sts.len(),
{
    if sts.len() == 0 {
        s
    } else {
        lower_statement_spec(sts.last(), lower_statements_spec(sts.drop_last(), s))
    }
}

/// Lowering of a function definition: the function, where it has a name and
/// a body, and the diagnostics reported on the way.
pub open spec fn lower_function_spec(f: ast::FunctionDefinition) -> (Option<FunctionModel>, Seq<DiagnosticModel>) {
    match (f.name, f.body) {
        (Some(name), Some(body)) => {
            let st = lower_statements_spec(body@, initial_state());
            (
                Some(FunctionModel { name: name@, instructions: st.instructions, span: f.span }),
                st.diagnostics,
            )
        },
        _ => (None, Seq::empty()),
    }
}

/// Lowering of the top-level items, in order: the functions produced and the
/// diagnostics reported.
pub open spec fn lower_items_spec(items: Seq<Item>) -> (Seq<FunctionModel>, Seq<DiagnosticModel>)
    decreases items.len(),
{
    if items.len() == 0 {
        (Seq::empty(), Seq::empty())
    } else {
        let (fs, ds) = lower_items_spec(items.drop_last());
        match items.last() {
            Item::Function(f) => {
                let (fo, fd) = lower_function_spec(f);
                (
                    match fo {
                        Some(m) => fs.push(m),
                        None => fs,
                    },
                    ds + fd,
                )
            },
            Item::Unsupported { kind, span } => (
                fs,
                ds.push(
                    labelled(
                        Severity::Bug,
                        "Translation unit item not implemented"@,
                        Some(unimplemented_code()),
                        span,
                        kind@,
                    ),
                ),
            ),
        }
    }
}

/// The diagnostic for a program without functions.
pub open spec fn missing_main(span: Span) -> DiagnosticModel {
    labelled(
        Severity::Error,
        "The program must contain a valid `main` function"@,
        None,
        span,
        "error occurred here"@,
    )
}

/// The diagnostic for a function other than `main`.
pub open spec fn extra_function(span: Span) -> DiagnosticModel {
    labelled(
        Severity::Error,
        "Only a `main` function is supported"@,
        None,
        span,
        "error occurred here"@,
    )
}

/// One diagnostic for each function of `fs` that is not named `main`, in order.
pub open spec fn extra_function_diagnostics(fs: Seq<FunctionModel>) -> Seq<DiagnosticModel>
    decreases fs.len(),
{
    if fs.len() == 0 {
        Seq::empty()
    } else {
        let rest = extra_function_diagnostics(fs.drop_last());
        if fs.last().name == "main"@ {
            rest
        } else {
            rest.push(extra_function(fs.last().span))
        }
    }
}

/// The diagnostics on the shape of the program: it must consist of exactly
/// one function, named `main`.
pub open spec fn main_check_spec(fs: Seq<FunctionModel>, span: Span) -> Seq<DiagnosticModel> {
    if fs.len() == 0 {
        seq![missing_main(span)]
    } else if fs.len() == 1 && fs[0].name == "main"@ {
        Seq::empty()
    } else {
        extra_function_diagnostics(fs)
    }
}

/// Lowering of a translation unit: the program and every diagnostic reported.
pub open spec fn lower_spec(unit: TranslationUnit) -> (ProgramModel, Seq<DiagnosticModel>) {
    let (fs, ds) = lower_items_spec(unit.items@);
    (ProgramModel { functions: fs }, ds + main_check_spec(fs, unit.span))
}

/// Every function of `unit` is small enough for its fresh numbers to fit in a `u32`.
pub open spec fn within_limits(unit: TranslationUnit) -> bool {
    forall|i: int|
        0 <= i < unit.items@.len() ==> match #[trigger] unit.items@[i] {
            Item::Function(f) => 4 * ast::function_size(f) <= u32::MAX,
            _ => true,
        }
}

/// The model of an optional value.
pub open spec fn option_model(v: Option<Val>) -> Option<ValModel> {
    match v {
        Some(x) => Some(x@),
        None => None,
    }
}

/// The mutable state of lowering one function.
pub struct FunctionContext {
    pub instructions: Vec<Instruction>,
    pub next_anonymous: u32,
    pub diagnostics: Vec<Diagnostic>,
}

impl View for FunctionContext {
    type V = LowerState;

    open spec fn view(&self) -> LowerState {
        LowerState {
            instructions: instructions_model(self.instructions@),
            next: self.next_anonymous as nat,
            diagnostics: diagnostics_model(self.diagnostics@),
        }
    }
}

/// Room left for `k` more fresh numbers after `s`.
pub open spec fn fits(s: LowerState, k: nat) -> bool {
    s.next + k <= u32::MAX
}

impl FunctionContext {
    pub fn new() -> (r: FunctionContext)
        ensures
            r@ == initial_state(),
    {
        let r = FunctionContext {
            instructions: Vec::new(),
            next_anonymous: 0,
            diagnostics: Vec::new(),
        };
        assert(r@.instructions =~= Seq::<InstructionModel>::empty());
        assert(r@.diagnostics =~= Seq::<DiagnosticModel>::empty());
        r
    }

    fn push(&mut self, i: Instruction)
        ensures
            final(self)@ == emit(old(self)@, i@),
    {
        self.instructions.push(i);
        assert(final(self)@.instructions =~= old(self)@.instructions.push(i@));
    }

    fn report(&mut self, d: Diagnostic)
        ensures
            final(self)@ == report(old(self)@, d@),
    {
        self.diagnostics.push(d);
        assert(final(self)@.diagnostics =~= old(self)@.diagnostics.push(d@));
    }

    /// Draw a fresh temporary.
    fn temporary(&mut self) -> (r: Variable)
        requires
            fits(old(self)@, 1),
        ensures
            final(self)@ == advance(old(self)@, 1),
            ValModel::Var(r@) == temp(old(self)@.next),
    {
        let r = Variable::Anonymous(self.next_anonymous);
        self.next_anonymous = self.next_anonymous + 1;
        r
    }

    /// Draw a fresh label name.
    fn label(&mut self) -> (r: Text)
        requires
            fits(old(self)@, 1),
        ensures
            final(self)@ == advance(old(self)@, 1),
            r@ == label_name(old(self)@.next),
    {
        let mut name = String::from_str("L");
        proof {
            reveal_strlit("L");
        }
        push_decimal(&mut name, self.next_anonymous as u64);
        self.next_anonymous = self.next_anonymous + 1;
        Text { value: name }
    }

    fn lower_number_literal(&mut self, text: &Text, span: Span) -> (r: Option<Val>)
        ensures
            (final(self)@, option_model(r)) == lower_expression_spec(
                Expression::NumberLiteral { text: *text, span },
                old(self)@,
            ),
    {
        match parse_decimal_i32(text.as_str()) {
            Some(value) => Some(Val::Constant(value)),
            None => {
                self.report(
                    Diagnostic::unimplemented(
                        "Number literal not implemented",
                        span,
                        Text::new("number_literal"),
                    ),
                );
                None
            },
        }
    }

    fn lower_unary_expression(&mut self, e: &Expression) -> (r: Option<Val>)
        requires
            e is Unary,
            fits(old(self)@, 4 * ast::expression_size(*e)),
        ensures
            (final(self)@, option_model(r)) == lower_expression_spec(*e, old(self)@),
            old(self)@.next <= final(self)@.next <= old(self)@.next + 4 * ast::expression_size(*e),
        decreases *e, 2nat,
    {
        match e {
            Expression::Unary { op, argument, .. } => {
                let src = match self.lower_expression(&**argument) {
                    Some(v) => v,
                    None => return None,
                };
                let dst = Val::Var(self.temporary());
                let uop = match op {
                    UnaryOp::Plus => return Some(src),
                    UnaryOp::Minus => UnaryOperator::Negate,
                    UnaryOp::BitNot => UnaryOperator::Complement,
                    UnaryOp::Not => UnaryOperator::Not,
                };
                let result = dst.duplicate();
                self.push(Instruction::Unary { op: uop, src, dst });
                Some(result)
            },
            _ => None,
        }
    }

    /// Emit `dst = left op right` for an arithmetic operator.
    fn lower_binary_operator(&mut self, left: Val, right: Val, op: BinaryOperator) -> (r: Option<Val>)
        requires
            fits(old(self)@, 1),
        ensures
            r is Some,
            option_model(r) == Some(temp(old(self)@.next)),
            final(self)@ == emit(
                advance(old(self)@, 1),
                InstructionModel::Binary {
                    op,
                    left_src: left@,
                    right_src: right@,
                    dst: temp(old(self)@.next),
                },
            ),
    {
        let dst = Val::Var(self.temporary());
        let result = dst.duplicate();
        self.push(Instruction::Binary { op, left_src: left, right_src: right, dst });
        Some(result)
    }

    /// Emit `dst = left op right` for a comparison.
    fn lower_comparison(&mut self, left: Val, right: Val, op: ComparisonOperator) -> (r: Option<Val>)
        requires
            fits(old(self)@, 1),
        ensures
            r is Some,
            option_model(r) == Some(temp(old(self)@.next)),
            final(self)@ == emit(
                advance(old(self)@, 1),
                InstructionModel::Comparison {
                    op,
                    left_src: left@,
                    right_src: right@,
                    dst: temp(old(self)@.next),
                },
            ),
    {
        let dst = Val::Var(self.temporary());
        let result = dst.duplicate();
        self.push(Instruction::Comparison { op, left_src: left, right_src: right, dst });
        Some(result)
    }

    fn lower_expression(&mut self, e: &Expression) -> (r: Option<Val>)
        requires
            fits(old(self)@, 4 * ast::expression_size(*e)),
        ensures
            (final(self)@, option_model(r)) == lower_expression_spec(*e, old(self)@),
            old(self)@.next <= final(self)@.next <= old(self)@.next + 4 * ast::expression_size(*e),
        decreases *e, 3nat,
    {
        match e {
            Expression::NumberLiteral { text, span } => self.lower_number_literal(text, *span),
            Expression::Unary { .. } => self.lower_unary_expression(e),
            Expression::Binary { .. } => self.lower_binary_expression(e),
            Expression::Parenthesized { inner, span } => match inner {
                Some(i) => self.lower_expression(&**i),
                None => {
                    self.report(
                        Diagnostic::unimplemented(
                            "Unexpected item in parenthesized expression",
                            *span,
                            Text::new("parenthesized_expression"),
                        ),
                    );
                    None
                },
            },
            Expression::Unsupported { kind, span } => {
                self.report(
                    Diagnostic::unimplemented("Expression not implemented", *span, kind.duplicate()),
                );
                None
            },
        }
    }

    fn lower_binary_expression(&mut self, e: &Expression) -> (r: Option<Val>)
        requires
            e is Binary,
            fits(old(self)@, 4 * ast::expression_size(*e)),
        ensures
            (final(self)@, option_model(r)) == lower_expression_spec(*e, old(self)@),
            old(self)@.next <= final(self)@.next <= old(self)@.next + 4 * ast::expression_size(*e),
        decreases *e, 2nat,
    {
        match e {
            Expression::Binary { op, left, right, span } => {
                match op {
                    BinaryOp::LogicalAnd => return self.lower_logical_and(e),
                    BinaryOp::LogicalOr => return self.lower_logical_or(e),
                    _ => {},
                }
                let l = match self.lower_expression(&**left) {
                    Some(v) => v,
                    None => return None,
                };
                let r = match self.lower_expression(&**right) {
                    Some(v) => v,
                    None => return None,
                };
                match op {
                    BinaryOp::Add => self.lower_binary_operator(l, r, BinaryOperator::Add),
                    BinaryOp::Sub => self.lower_binary_operator(l, r, BinaryOperator::Sub),
                    BinaryOp::Mul => self.lower_binary_operator(l, r, BinaryOperator::Mul),
                    BinaryOp::Div => self.lower_binary_operator(l, r, BinaryOperator::Div),
                    BinaryOp::Mod => self.lower_binary_operator(l, r, BinaryOperator::Mod),
                    BinaryOp::BitAnd => self.lower_binary_operator(l, r, BinaryOperator::And),
                    BinaryOp::BitOr => self.lower_binary_operator(l, r, BinaryOperator::Or),
                    BinaryOp::LeftShift => self.lower_binary_operator(l, r, BinaryOperator::LeftShift),
                    BinaryOp::RightShift => self.lower_binary_operator(l, r, BinaryOperator::RightShift),
                    BinaryOp::Equal => self.lower_comparison(l, r, ComparisonOperator::Equal),
                    BinaryOp::NotEqual => self.lower_comparison(l, r, ComparisonOperator::NotEqual),
                    BinaryOp::LessThan => self.lower_comparison(l, r, ComparisonOperator::LessThan),
                    BinaryOp::LessThanOrEqual => self.lower_comparison(
                        l,
                        r,
                        ComparisonOperator::LessThanOrEqual,
                    ),
                    BinaryOp::GreaterThan => self.lower_comparison(l, r, ComparisonOperator::GreaterThan),
                    BinaryOp::GreaterThanOrEqual => self.lower_comparison(
                        l,
                        r,
                        ComparisonOperator::GreaterThanOrEqual,
                    ),
                    _ => {
                        self.report(
                            Diagnostic::unimplemented(
                                "Binary operator not implemented",
                                *span,
                                Text::new("^"),
                            ),
                        );
                        None
                    },
                }
            },
            _ => None,
        }
    }

    /// Lower `left && right`: the right operand runs only where the left is
    /// non-zero, and the result is `0` or `1`.
    fn lower_logical_and(&mut self, e: &Expression) -> (r: Option<Val>)
        requires
            e matches Expression::Binary { op: BinaryOp::LogicalAnd, .. },
            fits(old(self)@, 4 * ast::expression_size(*e)),
        ensures
            (final(self)@, option_model(r)) == lower_expression_spec(*e, old(self)@),
            old(self)@.next <= final(self)@.next <= old(self)@.next + 4 * ast::expression_size(*e),
        decreases *e, 1nat,
    {
        self.lower_short_circuit(e, true)
    }

    /// Lower `left || right`: the right operand runs only where the left is
    /// zero, and the result is `0` or `1`.
    fn lower_logical_or(&mut self, e: &Expression) -> (r: Option<Val>)
        requires
            e matches Expression::Binary { op: BinaryOp::LogicalOr, .. },
            fits(old(self)@, 4 * ast::expression_size(*e)),
        ensures
            (final(self)@, option_model(r)) == lower_expression_spec(*e, old(self)@),
            old(self)@.next <= final(self)@.next <= old(self)@.next + 4 * ast::expression_size(*e),
        decreases *e, 1nat,
    {
        self.lower_short_circuit(e, false)
    }

    fn lower_short_circuit(&mut self, e: &Expression, and: bool) -> (r: Option<Val>)
        requires
            e matches Expression::Binary { op, .. } && op == (if and {
                BinaryOp::LogicalAnd
            } else {
                BinaryOp::LogicalOr
            }),
            fits(old(self)@, 4 * ast::expression_size(*e)),
        ensures
            (final(self)@, option_model(r)) == lower_expression_spec(*e, old(self)@),
            old(self)@.next <= final(self)@.next <= old(self)@.next + 4 * ast::expression_size(*e),
        decreases *e, 0nat,
    {
        match e {
            Expression::Binary { left, right, .. } => {
                let l = match self.lower_expression(&**left) {
                    Some(v) => v,
                    None => return None,
                };
                let short_label = self.label();
                let end_label = self.label();
                let result = Val::Var(self.temporary());
                let target = short_label.duplicate();
                if and {
                    self.push(Instruction::JumpIfZero { condition: l, target });
                } else {
                    self.push(Instruction::JumpIfNotZero { condition: l, target });
                }
                let r = match self.lower_expression(&**right) {
                    Some(v) => v,
                    None => return None,
                };
                let right_bool = Val::Var(self.temporary());
                let ghost s4 = self@;
                self.push(
                    Instruction::Comparison {
                        op: ComparisonOperator::NotEqual,
                        left_src: Val::Constant(0),
                        right_src: r,
                        dst: right_bool.duplicate(),
                    },
                );
                self.push(Instruction::Copy { src: right_bool, dst: result.duplicate() });
                self.push(Instruction::Jump { target: end_label.duplicate() });
                self.push(Instruction::Label(short_label));
                let fallback: i32 = if and { 0 } else { 1 };
                self.push(Instruction::Copy { src: Val::Constant(fallback), dst: result.duplicate() });
                self.push(Instruction::Label(end_label));
                let ghost n = s4.instructions.len() as int;
                assert(self@.instructions =~= s4.instructions + seq![
                    self@.instructions[n],
                    self@.instructions[n + 1],
                    self@.instructions[n + 2],
                    self@.instructions[n + 3],
                    self@.instructions[n + 4],
                    self@.instructions[n + 5],
                ]);
                Some(result)
            },
            _ => None,
        }
    }

    fn lower_return_statement(&mut self, st: &Statement)
        requires
            st is Return,
            fits(old(self)@, 4 * ast::statement_size(*st)),
        ensures
            final(self)@ == lower_statement_spec(*st, old(self)@),
            old(self)@.next <= final(self)@.next <= old(self)@.next + 4 * ast::statement_size(*st),
    {
        match st {
            Statement::Return { value: Some(e), .. } => {
                match self.lower_expression(e) {
                    Some(v) => self.push(Instruction::Return(v)),
                    None => {},
                }
            },
            Statement::Return { value: None, span } => {
                self.report(
                    Diagnostic::unimplemented(
                        "Bare `return` statement not implemented",
                        *span,
                        Text::new("return_statement"),
                    ),
                );
            },
            _ => {},
        }
    }

    fn lower_statement(&mut self, st: &Statement)
        requires
            fits(old(self)@, 4 * ast::statement_size(*st)),
        ensures
            final(self)@ == lower_statement_spec(*st, old(self)@),
            old(self)@.next <= final(self)@.next <= old(self)@.next + 4 * ast::statement_size(*st),
    {
        match st {
            Statement::Return { .. } => self.lower_return_statement(st),
            Statement::Unsupported { kind, span } => {
                self.report(
                    Diagnostic::unimplemented("Statement not implemented", *span, kind.duplicate()),
                );
            },
        }
    }

    /// Lower the statements of a function body, in order.
    fn lower_body(&mut self, body: &Vec<Statement>)
        requires
            old(self)@ == initial_state(),
            4 * ast::statements_size(body@) <= u32::MAX,
        ensures
            final(self)@ == lower_statements_spec(body@, initial_state()),
    {
        let mut i: usize = 0;
        while i < body.len()
            invariant
                0 <= i <= body.len(),
                4 * ast::statements_size(body@) <= u32::MAX,
                self@ == lower_statements_spec(body@.subrange(0, i as int), initial_state()),
                self@.next <= 4 * ast::statements_size(body@.subrange(0, i as int)),
            decreases body.len() - i,
        {
            let ghost prefix = body@.subrange(0, i as int + 1);
            assert(prefix.drop_last() =~= body@.subrange(0, i as int));
            proof {
                lemma_statements_size_prefix(body@, i as int + 1);
            }
            self.lower_statement(&body[i]);
            i = i + 1;
        }
        assert(body@.subrange(0, body@.len() as int) =~= body@);
    }
}

/// The size of a prefix of a statement list is at most that of the list.
pub proof fn lemma_statements_size_prefix(sts: Seq<Statement>, k: int)
    requires
        0 <= k <= sts.len(),
    ensures
        ast::statements_size(sts.subrange(0, k)) <= ast::statements_size(sts),
    decreases sts.len() - k,
{
    if k < sts.len() {
        lemma_statements_size_prefix(sts, k + 1);
        assert(sts.subrange(0, k + 1).drop_last() =~= sts.subrange(0, k));
    } else {
        assert(sts.subrange(0, k) =~= sts);
    }
}

/// Lower a function definition; `None` where it lacks a name or a body.
fn lower_function(f: &ast::FunctionDefinition, diagnostics: &mut Vec<Diagnostic>) -> (r: Option<FunctionDefinition>)
    requires
        4 * ast::function_size(*f) <= u32::MAX,
    ensures
        option_function_model(r) == lower_function_spec(*f).0,
        diagnostics_model(final(diagnostics)@) == diagnostics_model(old(diagnostics)@) + lower_function_spec(*f).1,
{
    match (&f.name, &f.body) {
        (Some(name), Some(body)) => {
            let mut ctx = FunctionContext::new();
            ctx.lower_body(body);
            let ghost before = diagnostics@;
            let FunctionContext { instructions, next_anonymous: _, diagnostics: mut found } = ctx;
            let ghost found_model = diagnostics_model(found@);
            diagnostics.append(&mut found);
            assert(diagnostics_model(diagnostics@) =~= diagnostics_model(before) + found_model);
            Some(FunctionDefinition { name: name.duplicate(), instructions, span: f.span })
        },
        _ => {
            assert(diagnostics_model(diagnostics@) =~= diagnostics_model(diagnostics@) + Seq::<DiagnosticModel>::empty());
            None
        },
    }
}

/// The model of an optional function.
pub open spec fn option_function_model(f: Option<FunctionDefinition>) -> Option<FunctionModel> {
    match f {
        Some(x) => Some(x@),
        None => None,
    }
}

/// Report the functions that make the program other than a single `main`.
fn check_main(functions: &Vec<FunctionDefinition>, span: Span, diagnostics: &mut Vec<Diagnostic>)
    ensures
        diagnostics_model(final(diagnostics)@) == diagnostics_model(old(diagnostics)@)
            + main_check_spec(functions@.map_values(|f: FunctionDefinition| f@), span),
{
    let ghost fs = functions@.map_values(|f: FunctionDefinition| f@);
    let ghost before = diagnostics_model(diagnostics@);
    if functions.len() == 0 {
        diagnostics.push(
            Diagnostic::with_label(
                Severity::Error,
                "The program must contain a valid `main` function",
                None,
                span,
                Text::new("error occurred here"),
            ),
        );
        assert(diagnostics_model(diagnostics@) =~= before + seq![missing_main(span)]);
        return ;
    }
    if functions.len() == 1 && functions[0].name.equals_str("main") {
        assert(diagnostics_model(diagnostics@) =~= before + Seq::<DiagnosticModel>::empty());
        return ;
    }
    let mut i: usize = 0;
    while i < functions.len()
        invariant
            0 <= i <= functions.len(),
            fs == functions@.map_values(|f: FunctionDefinition| f@),
            diagnostics_model(diagnostics@) == before + extra_function_diagnostics(
                fs.subrange(0, i as int),
            ),
        decreases functions.len() - i,
    {
        let ghost prev = diagnostics_model(diagnostics@);
        assert(fs.subrange(0, i as int + 1).drop_last() =~= fs.subrange(0, i as int));
        assert(fs.subrange(0, i as int + 1).last() == functions@[i as int]@);
        if !functions[i].name.equals_str("main") {
            diagnostics.push(
                Diagnostic::with_label(
                    Severity::Error,
                    "Only a `main` function is supported",
                    None,
                    functions[i].span,
                    Text::new("error occurred here"),
                ),
            );
            assert(diagnostics_model(diagnostics@) =~= prev.push(extra_function(functions@[i as int].span)));
        } else {
            assert(diagnostics_model(diagnostics@) =~= prev);
        }
        i = i + 1;
    }
    assert(fs.subrange(0, functions@.len() as int) =~= fs);
}

/// Whether every function of `unit` is small enough for [`lower`].
pub fn fits_lowering_limits(unit: &TranslationUnit) -> (r: bool)
    ensures
        r == within_limits(*unit),
{
    let mut i: usize = 0;
    while i < unit.items.len()
        invariant
            0 <= i <= unit.items.len(),
            forall|j: int|
                0 <= j < i ==> match #[trigger] unit.items@[j] {
                    Item::Function(f) => 4 * ast::function_size(f) <= u32::MAX,
                    _ => true,
                },
        decreases unit.items.len() - i,
    {
        match &unit.items[i] {
            Item::Function(f) => {
                let size = f.size_capped();
                if size > 0x3fff_ffff {
                    assert(!within_limits(*unit)) by {
                        assert(unit.items@[i as int] == Item::Function(*f));
                    }
                    return false;
                }
            },
            _ => {},
        }
        i = i + 1;
    }
    true
}

/// Lower a translation unit to three-address code. Every item that is not a
/// function definition, and every construct that is not supported, is
/// reported and skipped; the program must consist of exactly one function,
/// named `main`.
pub fn lower(unit: &TranslationUnit) -> (r: (Program, Vec<Diagnostic>))
    requires
        within_limits(*unit),
    ensures
        (r.0@, diagnostics_model(r.1@)) == lower_spec(*unit),
{
    let mut functions: Vec<FunctionDefinition> = Vec::new();
    let mut diagnostics: Vec<Diagnostic> = Vec::new();
    let ghost items = unit.items@;
    let mut i: usize = 0;
    while i < unit.items.len()
        invariant
            0 <= i <= unit.items.len(),
            items == unit.items@,
            within_limits(*unit),
            (
                functions@.map_values(|f: FunctionDefinition| f@),
                diagnostics_model(diagnostics@),
            ) == lower_items_spec(items.subrange(0, i as int)),
        decreases unit.items.len() - i,
    {
        let ghost fs0 = functions@.map_values(|f: FunctionDefinition| f@);
        let ghost ds0 = diagnostics_model(diagnostics@);
        assert(items.subrange(0, i as int + 1).drop_last() =~= items.subrange(0, i as int));
        assert(items.subrange(0, i as int + 1).last() == items[i as int]);
        match &unit.items[i] {
            Item::Function(f) => {
                assert(4 * ast::function_size(*f) <= u32::MAX) by {
                    assert(items[i as int] == Item::Function(*f));
                }
                match lower_function(f, &mut diagnostics) {
                    Some(lowered) => {
                        functions.push(lowered);
                        assert(functions@.map_values(|f: FunctionDefinition| f@) =~= fs0.push(
                            functions@[functions@.len() - 1]@,
                        ));
                    },
                    None => {},
                }
            },
            Item::Unsupported { kind, span } => {
                diagnostics.push(
                    Diagnostic::unimplemented(
                        "Translation unit item not implemented",
                        *span,
                        kind.duplicate(),
                    ),
                );
                assert(diagnostics_model(diagnostics@) =~= ds0.push(
                    diagnostics@[diagnostics@.len() - 1]@,
                ));
            },
        }
        i = i + 1;
    }
    assert(items.subrange(0, items.len() as int) =~= items);
    check_main(&functions, unit.span, &mut diagnostics);
    let program = Program { functions };
    (program, diagnostics)
}

} // verus!
