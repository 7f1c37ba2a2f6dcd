//! Properties of the pipeline as a whole, proved over the models that the
//! stages' contracts speak of.

use vstd::prelude::*;
use crate::assembly::{InstructionModel, Operand};
use crate::ast::{self, BinaryOp, Expression, Item, Statement, TranslationUnit};
use crate::codegen::{
    codegen_within_limits, fix_up_one, fix_up_spec, generate_assembly_spec, lower_function_spec,
    operand_spec, position, select_all_spec, select_spec, to_assembly_spec,
};
use crate::lowering::{
    advance, emit, initial_state, label_name, lower_expression_spec,
    lower_function_spec as lower_tac_function_spec, lower_items_spec, lower_spec,
    lower_statement_spec, lower_statements_spec, within_limits, LowerState,
};
use crate::text::lemma_decimal_injective;
use crate::tacky::{self, ValModel, VariableModel};

verus! {

/// An instruction whose operands the target can encode: no memory-to-memory
/// move, no division by an immediate, no comparison of two immediates.
pub open spec fn operands_legal(i: InstructionModel) -> bool {
    match i {
        InstructionModel::Mov { src: Operand::Stack(_), dst: Operand::Stack(_) } => false,
        InstructionModel::Idiv { src: Operand::Imm(_) } => false,
        InstructionModel::Comparison { left: Operand::Imm(_), right: Operand::Imm(_), .. } => false,
        _ => true,
    }
}

/// After the fix-up pass, every instruction has legal operands.
pub proof fn lemma_fix_up_legal(instrs: Seq<InstructionModel>)
    ensures
        forall|j: int|
            0 <= j < fix_up_spec(instrs).len() ==> operands_legal(#[trigger] fix_up_spec(instrs)[j]),
    decreases instrs.len(),
{
    if instrs.len() > 0 {
        lemma_fix_up_legal(instrs.drop_last());
        let prev = fix_up_spec(instrs.drop_last());
        let more = fix_up_one(instrs.last());
        assert forall|j: int| 0 <= j < fix_up_spec(instrs).len() implies operands_legal(
            #[trigger] fix_up_spec(instrs)[j],
        ) by {
            if j >= prev.len() {
                assert(fix_up_spec(instrs)[j] == more[j - prev.len()]);
            } else {
                assert(fix_up_spec(instrs)[j] == prev[j]);
            }
        }
    }
}

/// Every instruction of every function that code generation produces has
/// operands the target can encode.
pub proof fn lemma_generated_operands_legal(p: tacky::ProgramModel)
    ensures
        forall|f: int, j: int|
            0 <= f < generate_assembly_spec(p).functions.len() && 0 <= j
                < generate_assembly_spec(p).functions[f].instructions.len() ==> operands_legal(
                #[trigger] generate_assembly_spec(p).functions[f].instructions[j],
            ),
{
    assert forall|f: int, j: int|
        0 <= f < generate_assembly_spec(p).functions.len() && 0 <= j
            < generate_assembly_spec(p).functions[f].instructions.len() implies operands_legal(
        #[trigger] generate_assembly_spec(p).functions[f].instructions[j],
    ) by {
        let a = crate::codegen::to_assembly_spec(p.functions[f]);
        lemma_fix_up_legal(a.instructions);
        assert(generate_assembly_spec(p).functions[f] == lower_function_spec(p.functions[f]));
    }
}

/// Lowering is deterministic: lowering equal syntax trees gives equal
/// programs and equal diagnostics.
pub proof fn lemma_lowering_deterministic(a: TranslationUnit, b: TranslationUnit)
    requires
        a == b,
    ensures
        lower_spec(a) == lower_spec(b),
{
}

/// The temporary an instruction writes, for the instructions that write one.
pub open spec fn anonymous_destination(i: tacky::InstructionModel) -> Option<u32> {
    match i {
        tacky::InstructionModel::Unary { dst: ValModel::Var(VariableModel::Anonymous(n)), .. } => Some(n),
        tacky::InstructionModel::Binary { dst: ValModel::Var(VariableModel::Anonymous(n)), .. } => Some(n),
        tacky::InstructionModel::Comparison { dst: ValModel::Var(VariableModel::Anonymous(n)), .. } => Some(n),
        tacky::InstructionModel::Copy { dst: ValModel::Var(VariableModel::Anonymous(n)), .. } => Some(n),
        _ => None,
    }
}

/// No two instructions write the same temporary.
pub open spec fn distinct_anonymous_destinations(instrs: Seq<tacky::InstructionModel>) -> bool {
    forall|j: int, k: int|
        0 <= j < k < instrs.len() && (#[trigger] anonymous_destination(instrs[j])) is Some
            && (#[trigger] anonymous_destination(instrs[k])) is Some ==> anonymous_destination(
            instrs[j],
        ) != anonymous_destination(instrs[k])
}

/// The temporaries written are below `bound` and increase along the list.
pub open spec fn increasing_below(instrs: Seq<tacky::InstructionModel>, bound: nat) -> bool {
    &&& forall|j: int|
        0 <= j < instrs.len() && (#[trigger] anonymous_destination(instrs[j])) is Some
            ==> anonymous_destination(instrs[j])->Some_0 < bound
    &&& forall|j: int, k: int|
        0 <= j < k < instrs.len() && (#[trigger] anonymous_destination(instrs[j])) is Some
            && (#[trigger] anonymous_destination(instrs[k])) is Some
            ==> anonymous_destination(instrs[j])->Some_0 < anonymous_destination(instrs[k])->Some_0
}

/// An expression without `&&` or `||`.
pub open spec fn free_of_logical(e: Expression) -> bool
    decreases e,
{
    match e {
        Expression::Unary { argument, .. } => free_of_logical(*argument),
        Expression::Binary { op, left, right, .. } => op != BinaryOp::LogicalAnd && op
            != BinaryOp::LogicalOr && free_of_logical(*left) && free_of_logical(*right),
        Expression::Parenthesized { inner: Some(i), .. } => free_of_logical(*i),
        _ => true,
    }
}

pub open spec fn statement_free_of_logical(st: Statement) -> bool {
    match st {
        Statement::Return { value: Some(e), .. } => free_of_logical(e),
        _ => true,
    }
}

/// A function whose statements hold no `&&` or `||`.
pub open spec fn function_free_of_logical(f: ast::FunctionDefinition) -> bool {
    match f.body {
        Some(b) => forall|j: int| 0 <= j < b@.len() ==> statement_free_of_logical(#[trigger] b@[j]),
        None => true,
    }
}

/// A translation unit whose functions hold no `&&` or `||`.
pub open spec fn unit_free_of_logical(unit: TranslationUnit) -> bool {
    forall|j: int|
        0 <= j < unit.items@.len() ==> match #[trigger] unit.items@[j] {
            Item::Function(f) => function_free_of_logical(f),
            _ => true,
        }
}

proof fn lemma_emit_increasing(s: LowerState, i: tacky::InstructionModel)
    requires
        increasing_below(s.instructions, s.next),
        anonymous_destination(i) is Some ==> anonymous_destination(i)->Some_0 == s.next,
        s.next < u32::MAX,
    ensures
        increasing_below(emit(advance(s, 1), i).instructions, s.next + 1),
{
    let t = emit(advance(s, 1), i).instructions;
    assert forall|j: int| 0 <= j < t.len() - 1 implies t[j] == s.instructions[j] by {}
}

proof fn lemma_expression_increasing(e: Expression, s: LowerState)
    requires
        free_of_logical(e),
        increasing_below(s.instructions, s.next),
        s.next + 4 * ast::expression_size(e) <= u32::MAX,
    ensures
        ({
            let s2 = lower_expression_spec(e, s).0;
            &&& s.next <= s2.next <= s.next + 4 * ast::expression_size(e)
            &&& increasing_below(s2.instructions, s2.next)
        }),
    decreases e,
{
    match e {
        Expression::Unary { op, argument, .. } => {
            lemma_expression_increasing(*argument, s);
            let (s1, v) = lower_expression_spec(*argument, s);
            if v is Some {
                match crate::lowering::unary_operator(op) {
                    Some(uop) => {
                        lemma_emit_increasing(
                            s1,
                            tacky::InstructionModel::Unary {
                                op: uop,
                                src: v->Some_0,
                                dst: crate::lowering::temp(s1.next),
                            },
                        );
                    },
                    None => {},
                }
            }
        },
        Expression::Binary { op, left, right, span } => {
            lemma_expression_increasing(*left, s);
            let (s1, lv) = lower_expression_spec(*left, s);
            if lv is Some {
                lemma_expression_increasing(*right, s1);
                let (s2, rv) = lower_expression_spec(*right, s1);
                if rv is Some {
                    let dst = crate::lowering::temp(s2.next);
                    match crate::lowering::arithmetic_operator(op) {
                        Some(aop) => {
                            lemma_emit_increasing(
                                s2,
                                tacky::InstructionModel::Binary {
                                    op: aop,
                                    left_src: lv->Some_0,
                                    right_src: rv->Some_0,
                                    dst,
                                },
                            );
                        },
                        None => match crate::lowering::comparison_operator(op) {
                            Some(cop) => {
                                lemma_emit_increasing(
                                    s2,
                                    tacky::InstructionModel::Comparison {
                                        op: cop,
                                        left_src: lv->Some_0,
                                        right_src: rv->Some_0,
                                        dst,
                                    },
                                );
                            },
                            None => {},
                        },
                    }
                }
            }
        },
        Expression::Parenthesized { inner: Some(i), .. } => {
            lemma_expression_increasing(*i, s);
        },
        _ => {},
    }
}

proof fn lemma_statements_increasing(sts: Seq<Statement>, s: LowerState)
    requires
        forall|j: int| 0 <= j < sts.len() ==> statement_free_of_logical(#[trigger] sts[j]),
        increasing_below(s.instructions, s.next),
        s.next + 4 * ast::statements_size(sts) <= u32::MAX,
    ensures
        ({
            let s2 = lower_statements_spec(sts, s);
            &&& s.next <= s2.next <= s.next + 4 * ast::statements_size(sts)
            &&& increasing_below(s2.instructions, s2.next)
        }),
    decreases sts.len(),
{
    if sts.len() > 0 {
        let prev = sts.drop_last();
        assert forall|j: int| 0 <= j < prev.len() implies statement_free_of_logical(#[trigger] prev[j]) by {
            assert(prev[j] == sts[j]);
        }
        lemma_statements_increasing(prev, s);
        let s1 = lower_statements_spec(prev, s);
        assert(statement_free_of_logical(sts[sts.len() - 1]));
        match sts.last() {
            Statement::Return { value: Some(e), .. } => {
                lemma_expression_increasing(e, s1);
                let (s2, v) = lower_expression_spec(e, s1);
                if v is Some {
                    let t = emit(s2, tacky::InstructionModel::Return(v->Some_0)).instructions;
                    assert forall|j: int| 0 <= j < t.len() - 1 implies t[j] == s2.instructions[j] by {}
                }
            },
            _ => {},
        }
    }
}

proof fn lemma_increasing_distinct(instrs: Seq<tacky::InstructionModel>, bound: nat)
    requires
        increasing_below(instrs, bound),
    ensures
        distinct_anonymous_destinations(instrs),
{
}

proof fn lemma_items_distinct(items: Seq<Item>)
    requires
        forall|j: int|
            0 <= j < items.len() ==> match #[trigger] items[j] {
                Item::Function(f) => function_free_of_logical(f) && 4 * ast::function_size(f)
                    <= u32::MAX,
                _ => true,
            },
    ensures
        forall|k: int|
            0 <= k < lower_items_spec(items).0.len() ==> distinct_anonymous_destinations(
                (#[trigger] lower_items_spec(items).0[k]).instructions,
            ),
    decreases items.len(),
{
    if items.len() > 0 {
        let prev = items.drop_last();
        assert forall|j: int| 0 <= j < prev.len() implies match #[trigger] prev[j] {
            Item::Function(f) => function_free_of_logical(f) && 4 * ast::function_size(f) <= u32::MAX,
            _ => true,
        } by {
            assert(prev[j] == items[j]);
        }
        lemma_items_distinct(prev);
        let fs0 = lower_items_spec(prev).0;
        let fs = lower_items_spec(items).0;
        let last = items[items.len() - 1];
        assert(items.last() == last);
        match last {
            Item::Function(f) => {
                match (f.name, f.body) {
                    (Some(name), Some(body)) => {
                        assert(increasing_below(initial_state().instructions, 0));
                        lemma_statements_increasing(body@, initial_state());
                        let st = lower_statements_spec(body@, initial_state());
                        lemma_increasing_distinct(st.instructions, st.next);
                        assert(fs.len() == fs0.len() + 1);
                        assert forall|k: int| 0 <= k < fs.len() implies distinct_anonymous_destinations(
                            (#[trigger] fs[k]).instructions,
                        ) by {
                            if k < fs0.len() {
                                assert(fs[k] == fs0[k]);
                            } else {
                                assert(fs[k].instructions == st.instructions);
                            }
                        }
                    },
                    _ => {
                        assert(fs == fs0);
                    },
                }
            },
            _ => {
                assert(fs == fs0);
            },
        }
    }
}

/// Within each lowered function, no two instructions write the same
/// temporary, for programs without `&&` and `||` (whose lowering writes its
/// result from both branches).
pub proof fn lemma_anonymous_destinations_unique(unit: TranslationUnit)
    requires
        within_limits(unit),
        unit_free_of_logical(unit),
    ensures
        forall|k: int|
            0 <= k < lower_spec(unit).0.functions.len() ==> distinct_anonymous_destinations(
                (#[trigger] lower_spec(unit).0.functions[k]).instructions,
            ),
{
    lemma_items_distinct(unit.items@);
}

/// The label a jump goes to, for jumps.
pub open spec fn jump_target(i: tacky::InstructionModel) -> Option<Seq<char>> {
    match i {
        tacky::InstructionModel::Jump { target } => Some(target),
        tacky::InstructionModel::JumpIfZero { target, .. } => Some(target),
        tacky::InstructionModel::JumpIfNotZero { target, .. } => Some(target),
        _ => None,
    }
}

/// The name a label instruction defines.
pub open spec fn label_of(i: tacky::InstructionModel) -> Option<Seq<char>> {
    match i {
        tacky::InstructionModel::Label(t) => Some(t),
        _ => None,
    }
}

/// Some instruction of `instrs` defines label `t`.
pub open spec fn defines(instrs: Seq<tacky::InstructionModel>, t: Seq<char>) -> bool {
    exists|k: int| 0 <= k < instrs.len() && #[trigger] label_of(instrs[k]) == Some(t)
}

/// Every jump of `instrs` goes to a label that exactly one instruction defines.
pub open spec fn labels_resolve(instrs: Seq<tacky::InstructionModel>) -> bool {
    forall|j: int|
        0 <= j < instrs.len() && (#[trigger] jump_target(instrs[j])) is Some ==> exists|k: int|
            0 <= k < instrs.len() && label_of(instrs[k]) == jump_target(instrs[j]) && forall|m: int|
                0 <= m < instrs.len() && #[trigger] label_of(instrs[m]) == jump_target(instrs[j])
                    ==> m == k
}

/// No two label instructions define the same name.
pub open spec fn labels_distinct(instrs: Seq<tacky::InstructionModel>) -> bool {
    forall|j: int, k: int|
        0 <= j < k < instrs.len() && (#[trigger] label_of(instrs[j])) is Some ==> label_of(instrs[j])
            != #[trigger] label_of(instrs[k])
}

/// Every label was drawn as a fresh number below `next` that is not pending.
pub open spec fn labels_fresh(instrs: Seq<tacky::InstructionModel>, next: nat, pending: Set<nat>) -> bool {
    forall|j: int|
        0 <= j < instrs.len() && (#[trigger] label_of(instrs[j])) is Some ==> exists|n: nat|
            n < next && !pending.contains(n) && label_of(instrs[j]) == Some(#[trigger] label_name(n))
}

/// Every jump goes to a defined label or to a pending one.
pub open spec fn jumps_covered(instrs: Seq<tacky::InstructionModel>, pending: Set<nat>) -> bool {
    forall|j: int|
        0 <= j < instrs.len() && (#[trigger] jump_target(instrs[j])) is Some ==> defines(
            instrs,
            jump_target(instrs[j])->Some_0,
        ) || exists|p: nat| pending.contains(p) && jump_target(instrs[j]) == Some(#[trigger] label_name(p))
}

/// The labels of a partly lowered function are sound, with `pending` labels
/// still to be placed.
pub open spec fn labels_sound(s: LowerState, pending: Set<nat>) -> bool {
    &&& labels_distinct(s.instructions)
    &&& labels_fresh(s.instructions, s.next, pending)
    &&& jumps_covered(s.instructions, pending)
    &&& forall|p: nat| pending.contains(p) ==> p < s.next
}

proof fn lemma_label_name_injective(a: nat, b: nat)
    ensures
        label_name(a) == label_name(b) ==> a == b,
{
    if label_name(a) == label_name(b) {
        assert(label_name(a).subrange(1, label_name(a).len() as int) =~= crate::text::decimal(a));
        assert(label_name(b).subrange(1, label_name(b).len() as int) =~= crate::text::decimal(b));
        lemma_decimal_injective(a, b);
    }
}

/// Appending instructions that are neither labels nor jumps keeps the labels sound.
proof fn lemma_sound_extend_plain(s: LowerState, t: LowerState, pending: Set<nat>)
    requires
        labels_sound(s, pending),
        s.next <= t.next,
        t.instructions.len() >= s.instructions.len(),
        forall|j: int| 0 <= j < s.instructions.len() ==> t.instructions[j] == s.instructions[j],
        forall|j: int|
            s.instructions.len() <= j < t.instructions.len() ==> label_of(t.instructions[j]) is None
                && jump_target(t.instructions[j]) is None,
    ensures
        labels_sound(t, pending),
{
    let si = s.instructions;
    let ti = t.instructions;
    assert forall|j: int, k: int|
        0 <= j < k < ti.len() && (#[trigger] label_of(ti[j])) is Some implies label_of(ti[j])
        != #[trigger] label_of(ti[k]) by {
        if k < si.len() {
            assert(ti[j] == si[j] && ti[k] == si[k]);
        }
    }
    assert forall|j: int| 0 <= j < ti.len() && (#[trigger] label_of(ti[j])) is Some implies exists|n: nat|
        n < t.next && !pending.contains(n) && label_of(ti[j]) == Some(#[trigger] label_name(n)) by {
        assert(ti[j] == si[j]);
        assert(label_of(si[j]) is Some);
    }
    assert forall|j: int| 0 <= j < ti.len() && (#[trigger] jump_target(ti[j])) is Some implies defines(
        ti,
        jump_target(ti[j])->Some_0,
    ) || exists|p: nat| pending.contains(p) && jump_target(ti[j]) == Some(#[trigger] label_name(p)) by {
        assert(ti[j] == si[j]);
        assert(jump_target(si[j]) is Some);
        if defines(si, jump_target(si[j])->Some_0) {
            let k = choose|k: int| 0 <= k < si.len() && #[trigger] label_of(si[k]) == jump_target(si[j]);
            assert(ti[k] == si[k]);
        }
    }
}

/// Lowering an expression only appends instructions and diagnostics, never
/// goes back on its fresh numbers, and reports something whenever it fails.
proof fn lemma_expression_monotone(e: Expression, s: LowerState)
    ensures
        ({
            let (s2, v) = lower_expression_spec(e, s);
            &&& s.next <= s2.next
            &&& s.instructions.len() <= s2.instructions.len()
            &&& forall|j: int| 0 <= j < s.instructions.len() ==> s2.instructions[j] == s.instructions[j]
            &&& s.diagnostics.len() <= s2.diagnostics.len()
            &&& v is None ==> s.diagnostics.len() < s2.diagnostics.len()
        }),
    decreases e,
{
    match e {
        Expression::Unary { argument, .. } => {
            lemma_expression_monotone(*argument, s);
        },
        Expression::Binary { op, left, right, .. } => {
            lemma_expression_monotone(*left, s);
            let (s1, lv) = lower_expression_spec(*left, s);
            if lv is Some {
                if op == BinaryOp::LogicalAnd || op == BinaryOp::LogicalOr {
                    let s2 = lower_expression_spec(e, s).0;
                    let and = op == BinaryOp::LogicalAnd;
                    let test = if and {
                        tacky::InstructionModel::JumpIfZero { condition: lv->Some_0, target: label_name(s1.next) }
                    } else {
                        tacky::InstructionModel::JumpIfNotZero { condition: lv->Some_0, target: label_name(s1.next) }
                    };
                    lemma_expression_monotone(*right, emit(advance(s1, 3), test));
                } else {
                    lemma_expression_monotone(*right, s1);
                }
            }
        },
        Expression::Parenthesized { inner: Some(i), .. } => {
            lemma_expression_monotone(*i, s);
        },
        _ => {},
    }
}

/// Placing a conditional jump to a label that is yet to come.
proof fn lemma_sound_open(s1: LowerState, pending: Set<nat>, test: tacky::InstructionModel)
    requires
        labels_sound(s1, pending),
        jump_target(test) == Some(label_name(s1.next)),
        label_of(test) is None,
    ensures
        labels_sound(
            emit(advance(s1, 3), test),
            pending.insert(s1.next).insert(s1.next + 1),
        ),
{
    let a = s1.next;
    let p2 = pending.insert(a).insert(a + 1);
    let si = s1.instructions;
    let ti = emit(advance(s1, 3), test).instructions;
    assert(ti.len() == si.len() + 1);
    assert forall|j: int| 0 <= j < si.len() implies ti[j] == si[j] by {}
    assert(ti[si.len() as int] == test);
    assert forall|j: int, k: int|
        0 <= j < k < ti.len() && (#[trigger] label_of(ti[j])) is Some implies label_of(ti[j])
        != #[trigger] label_of(ti[k]) by {
        if k < si.len() {
            assert(ti[j] == si[j] && ti[k] == si[k]);
        }
    }
    assert forall|j: int| 0 <= j < ti.len() && (#[trigger] label_of(ti[j])) is Some implies exists|n: nat|
        n < a + 3 && !p2.contains(n) && label_of(ti[j]) == Some(#[trigger] label_name(n)) by {
        assert(ti[j] == si[j]);
        assert(label_of(si[j]) is Some);
        let n = choose|n: nat| n < a && !pending.contains(n) && label_of(si[j]) == Some(#[trigger] label_name(n));
        assert(!p2.contains(n));
    }
    assert forall|j: int| 0 <= j < ti.len() && (#[trigger] jump_target(ti[j])) is Some implies defines(
        ti,
        jump_target(ti[j])->Some_0,
    ) || exists|p: nat| p2.contains(p) && jump_target(ti[j]) == Some(#[trigger] label_name(p)) by {
        if j == si.len() {
            assert(p2.contains(a));
        } else {
            assert(ti[j] == si[j]);
            assert(jump_target(si[j]) is Some);
            if defines(si, jump_target(si[j])->Some_0) {
                let k = choose|k: int| 0 <= k < si.len() && #[trigger] label_of(si[k]) == jump_target(si[j]);
                assert(ti[k] == si[k]);
            } else {
                let p = choose|p: nat| pending.contains(p) && jump_target(si[j]) == Some(#[trigger] label_name(p));
                assert(p2.contains(p));
            }
        }
    }
}

/// Placing the two labels of a short-circuit operator after its operands.
proof fn lemma_sound_close(s3: LowerState, pending: Set<nat>, a: nat, tail: Seq<tacky::InstructionModel>)
    requires
        labels_sound(s3, pending.insert(a).insert(a + 1)),
        a + 3 <= s3.next,
        forall|p: nat| pending.contains(p) ==> p < a,
        tail.len() == 6,
        label_of(tail[0]) is None && jump_target(tail[0]) is None,
        label_of(tail[1]) is None && jump_target(tail[1]) is None,
        tail[2] == (tacky::InstructionModel::Jump { target: label_name(a + 1) }),
        tail[3] == tacky::InstructionModel::Label(label_name(a)),
        label_of(tail[4]) is None && jump_target(tail[4]) is None,
        tail[5] == tacky::InstructionModel::Label(label_name(a + 1)),
    ensures
        labels_sound(
            (LowerState { instructions: advance(s3, 1).instructions + tail, ..advance(s3, 1) }),
            pending,
        ),
{
    let p2 = pending.insert(a).insert(a + 1);
    let si = s3.instructions;
    let n0 = si.len() as int;
    let t = LowerState { instructions: advance(s3, 1).instructions + tail, ..advance(s3, 1) };
    let ti = t.instructions;
    assert forall|j: int| 0 <= j < n0 implies ti[j] == si[j] by {}
    assert forall|j: int| 0 <= j < 6 implies ti[n0 + j] == tail[j] by {}
    lemma_label_name_injective(a, a + 1);
    // Each old label is some fresh number other than the two placed here.
    assert forall|j: int| 0 <= j < n0 && (#[trigger] label_of(si[j])) is Some implies label_of(si[j])
        != Some(label_name(a)) && label_of(si[j]) != Some(label_name(a + 1)) by {
        let n = choose|n: nat| n < s3.next && !p2.contains(n) && label_of(si[j]) == Some(#[trigger] label_name(n));
        lemma_label_name_injective(n, a);
        lemma_label_name_injective(n, a + 1);
    }
    assert forall|j: int, k: int|
        0 <= j < k < ti.len() && (#[trigger] label_of(ti[j])) is Some implies label_of(ti[j])
        != #[trigger] label_of(ti[k]) by {
        if k < n0 {
            assert(ti[j] == si[j] && ti[k] == si[k]);
        } else if j < n0 {
            assert(ti[j] == si[j]);
            assert(label_of(si[j]) is Some);
        }
    }
    assert forall|j: int| 0 <= j < ti.len() && (#[trigger] label_of(ti[j])) is Some implies exists|n: nat|
        n < t.next && !pending.contains(n) && label_of(ti[j]) == Some(#[trigger] label_name(n)) by {
        if j < n0 {
            assert(ti[j] == si[j]);
            assert(label_of(si[j]) is Some);
            let n = choose|n: nat| n < s3.next && !p2.contains(n) && label_of(si[j]) == Some(#[trigger] label_name(n));
            assert(!pending.contains(n));
        } else if j == n0 + 3 {
            assert(!pending.contains(a));
            assert(label_of(ti[j]) == Some(label_name(a)));
        } else {
            assert(j == n0 + 5);
            assert(!pending.contains(a + 1));
            assert(label_of(ti[j]) == Some(label_name(a + 1)));
        }
    }
    assert(label_of(ti[n0 + 3]) == Some(label_name(a)));
    assert(label_of(ti[n0 + 5]) == Some(label_name(a + 1)));
    assert forall|j: int| 0 <= j < ti.len() && (#[trigger] jump_target(ti[j])) is Some implies defines(
        ti,
        jump_target(ti[j])->Some_0,
    ) || exists|p: nat| pending.contains(p) && jump_target(ti[j]) == Some(#[trigger] label_name(p)) by {
        if j < n0 {
            assert(ti[j] == si[j]);
            assert(jump_target(si[j]) is Some);
            if defines(si, jump_target(si[j])->Some_0) {
                let k = choose|k: int| 0 <= k < si.len() && #[trigger] label_of(si[k]) == jump_target(si[j]);
                assert(ti[k] == si[k]);
            } else {
                let p = choose|p: nat| p2.contains(p) && jump_target(si[j]) == Some(#[trigger] label_name(p));
                if p == a {
                    assert(label_of(ti[n0 + 3]) == jump_target(ti[j]));
                } else if p == a + 1 {
                    assert(label_of(ti[n0 + 5]) == jump_target(ti[j]));
                } else {
                    assert(pending.contains(p));
                }
            }
        } else {
            assert(j == n0 + 2);
            assert(label_of(ti[n0 + 5]) == jump_target(ti[j]));
        }
    }
}

/// A successful lowering of an expression keeps the labels sound.
proof fn lemma_expression_labels(e: Expression, s: LowerState, pending: Set<nat>)
    requires
        labels_sound(s, pending),
        lower_expression_spec(e, s).1 is Some,
    ensures
        labels_sound(lower_expression_spec(e, s).0, pending),
    decreases e,
{
    let (s2, v) = lower_expression_spec(e, s);
    lemma_expression_monotone(e, s);
    match e {
        Expression::Unary { op, argument, .. } => {
            lemma_expression_labels(*argument, s, pending);
            let s1 = lower_expression_spec(*argument, s).0;
            lemma_sound_extend_plain(s1, s2, pending);
        },
        Expression::Binary { op, left, right, span } => {
            lemma_expression_labels(*left, s, pending);
            lemma_expression_monotone(*left, s);
            let (s1, lv) = lower_expression_spec(*left, s);
            if op == BinaryOp::LogicalAnd || op == BinaryOp::LogicalOr {
                let and = op == BinaryOp::LogicalAnd;
                let a = s1.next;
                let test = if and {
                    tacky::InstructionModel::JumpIfZero { condition: lv->Some_0, target: label_name(a) }
                } else {
                    tacky::InstructionModel::JumpIfNotZero { condition: lv->Some_0, target: label_name(a) }
                };
                let p2 = pending.insert(a).insert(a + 1);
                let sa = emit(advance(s1, 3), test);
                lemma_sound_open(s1, pending, test);
                lemma_expression_labels(*right, sa, p2);
                lemma_expression_monotone(*right, sa);
                let (s3, rv) = lower_expression_spec(*right, sa);
                let right_bool = crate::lowering::temp(s3.next);
                let result = crate::lowering::temp(a + 2);
                let tail = seq![
                    tacky::InstructionModel::Comparison {
                        op: tacky::ComparisonOperator::NotEqual,
                        left_src: ValModel::Constant(0),
                        right_src: rv->Some_0,
                        dst: right_bool,
                    },
                    tacky::InstructionModel::Copy { src: right_bool, dst: result },
                    tacky::InstructionModel::Jump { target: label_name(a + 1) },
                    tacky::InstructionModel::Label(label_name(a)),
                    tacky::InstructionModel::Copy {
                        src: ValModel::Constant(if and { 0 } else { 1 }),
                        dst: result,
                    },
                    tacky::InstructionModel::Label(label_name(a + 1)),
                ];
                assert forall|p: nat| pending.contains(p) implies p < a by {}
                lemma_sound_close(s3, pending, a, tail);
                assert(s2 == (LowerState { instructions: advance(s3, 1).instructions + tail, ..advance(s3, 1) }));
            } else {
                lemma_expression_labels(*right, s1, pending);
                let s1r = lower_expression_spec(*right, s1).0;
                lemma_sound_extend_plain(s1r, s2, pending);
            }
        },
        Expression::Parenthesized { inner: Some(i), .. } => {
            lemma_expression_labels(*i, s, pending);
        },
        _ => {},
    }
}

/// A lowering of statements that reports nothing keeps the labels sound.
proof fn lemma_statements_labels(sts: Seq<Statement>, s: LowerState)
    requires
        labels_sound(s, Set::empty()),
        lower_statements_spec(sts, s).diagnostics.len() == s.diagnostics.len(),
    ensures
        labels_sound(lower_statements_spec(sts, s), Set::empty()),
        s.diagnostics.len() <= lower_statements_spec(sts, s).diagnostics.len(),
    decreases sts.len(),
{
    if sts.len() > 0 {
        let prev = sts.drop_last();
        lemma_statements_diagnostics_grow(prev, s);
        let s1 = lower_statements_spec(prev, s);
        lemma_statement_diagnostics_grow(sts.last(), s1);
        lemma_statements_labels(prev, s);
        match sts.last() {
            Statement::Return { value: Some(e), .. } => {
                lemma_expression_monotone(e, s1);
                lemma_expression_labels(e, s1, Set::empty());
                let s2 = lower_expression_spec(e, s1).0;
                lemma_sound_extend_plain(s2, lower_statements_spec(sts, s), Set::empty());
            },
            _ => {},
        }
    }
}

proof fn lemma_statement_diagnostics_grow(st: Statement, s: LowerState)
    ensures
        s.diagnostics.len() <= lower_statement_spec(st, s).diagnostics.len(),
        !(st matches Statement::Return { value: Some(_), .. }) ==> s.diagnostics.len()
            < lower_statement_spec(st, s).diagnostics.len(),
        st matches Statement::Return { value: Some(e), .. } ==> (lower_expression_spec(e, s).1 is None
            ==> s.diagnostics.len() < lower_statement_spec(st, s).diagnostics.len()),
{
    match st {
        Statement::Return { value: Some(e), .. } => {
            lemma_expression_monotone(e, s);
        },
        _ => {},
    }
}

proof fn lemma_statements_diagnostics_grow(sts: Seq<Statement>, s: LowerState)
    ensures
        s.diagnostics.len() <= lower_statements_spec(sts, s).diagnostics.len(),
    decreases sts.len(),
{
    if sts.len() > 0 {
        lemma_statements_diagnostics_grow(sts.drop_last(), s);
        lemma_statement_diagnostics_grow(sts.last(), lower_statements_spec(sts.drop_last(), s));
    }
}

/// Sound labels with nothing pending resolve every jump to exactly one label.
proof fn lemma_sound_resolves(s: LowerState)
    requires
        labels_sound(s, Set::empty()),
    ensures
        labels_resolve(s.instructions),
{
    let si = s.instructions;
    assert forall|j: int| 0 <= j < si.len() && (#[trigger] jump_target(si[j])) is Some implies exists|k: int|
        0 <= k < si.len() && label_of(si[k]) == jump_target(si[j]) && forall|m: int|
            0 <= m < si.len() && #[trigger] label_of(si[m]) == jump_target(si[j]) ==> m == k by {
        assert(defines(si, jump_target(si[j])->Some_0));
        let k = choose|k: int| 0 <= k < si.len() && #[trigger] label_of(si[k]) == jump_target(si[j]);
        assert forall|m: int| 0 <= m < si.len() && #[trigger] label_of(si[m]) == jump_target(si[j]) implies m == k by {
            if m < k {
                assert(label_of(si[m]) != label_of(si[k]));
            } else if k < m {
                assert(label_of(si[k]) != label_of(si[m]));
            }
        }
    }
}

/// No diagnostic of `ds` has severity `Bug`.
pub open spec fn no_bugs(ds: Seq<crate::diagnostics::DiagnosticModel>) -> bool {
    forall|j: int| 0 <= j < ds.len() ==> (#[trigger] ds[j]).severity != crate::diagnostics::Severity::Bug
}

/// What lowering adds to `s2`'s diagnostics beyond `s`'s are all bugs, and
/// `s`'s diagnostics stay.
pub open spec fn adds_only_bugs(s: LowerState, s2: LowerState) -> bool {
    &&& s.diagnostics.len() <= s2.diagnostics.len()
    &&& forall|j: int| 0 <= j < s.diagnostics.len() ==> s2.diagnostics[j] == s.diagnostics[j]
    &&& forall|j: int|
        s.diagnostics.len() <= j < s2.diagnostics.len() ==> (#[trigger] s2.diagnostics[j]).severity
            == crate::diagnostics::Severity::Bug
}

proof fn lemma_report_bug(s: LowerState, d: crate::diagnostics::DiagnosticModel)
    requires
        d.severity == crate::diagnostics::Severity::Bug,
    ensures
        adds_only_bugs(s, crate::lowering::report(s, d)),
{
}

proof fn lemma_adds_only_bugs_trans(a: LowerState, b: LowerState, c: LowerState)
    requires
        adds_only_bugs(a, b),
        adds_only_bugs(b, c),
    ensures
        adds_only_bugs(a, c),
{
    assert forall|j: int| a.diagnostics.len() <= j < c.diagnostics.len() implies (#[trigger] c.diagnostics[j]).severity
        == crate::diagnostics::Severity::Bug by {
        if j < b.diagnostics.len() {
            assert(c.diagnostics[j] == b.diagnostics[j]);
        }
    }
}

/// Lowering an expression reports nothing but bugs.
proof fn lemma_expression_bugs(e: Expression, s: LowerState)
    ensures
        adds_only_bugs(s, lower_expression_spec(e, s).0),
    decreases e,
{
    match e {
        Expression::Unary { argument, .. } => {
            lemma_expression_bugs(*argument, s);
        },
        Expression::Binary { op, left, right, .. } => {
            lemma_expression_bugs(*left, s);
            let (s1, lv) = lower_expression_spec(*left, s);
            if lv is Some {
                if op == BinaryOp::LogicalAnd || op == BinaryOp::LogicalOr {
                    let test = if op == BinaryOp::LogicalAnd {
                        tacky::InstructionModel::JumpIfZero { condition: lv->Some_0, target: label_name(s1.next) }
                    } else {
                        tacky::InstructionModel::JumpIfNotZero { condition: lv->Some_0, target: label_name(s1.next) }
                    };
                    let sa = emit(advance(s1, 3), test);
                    lemma_expression_bugs(*right, sa);
                    lemma_adds_only_bugs_trans(s, s1, sa);
                    lemma_adds_only_bugs_trans(s, sa, lower_expression_spec(*right, sa).0);
                } else {
                    lemma_expression_bugs(*right, s1);
                    lemma_adds_only_bugs_trans(s, s1, lower_expression_spec(*right, s1).0);
                }
            }
        },
        Expression::Parenthesized { inner: Some(i), .. } => {
            lemma_expression_bugs(*i, s);
        },
        _ => {},
    }
}

/// Lowering statements reports nothing but bugs.
proof fn lemma_statements_bugs(sts: Seq<Statement>, s: LowerState)
    ensures
        adds_only_bugs(s, lower_statements_spec(sts, s)),
    decreases sts.len(),
{
    if sts.len() > 0 {
        lemma_statements_bugs(sts.drop_last(), s);
        let s1 = lower_statements_spec(sts.drop_last(), s);
        match sts.last() {
            Statement::Return { value: Some(e), .. } => {
                lemma_expression_bugs(e, s1);
            },
            _ => {},
        }
        lemma_adds_only_bugs_trans(s, s1, lower_statements_spec(sts, s));
    }
}

proof fn lemma_items_labels(items: Seq<Item>)
    requires
        no_bugs(lower_items_spec(items).1),
    ensures
        forall|k: int|
            0 <= k < lower_items_spec(items).0.len() ==> labels_resolve(
                (#[trigger] lower_items_spec(items).0[k]).instructions,
            ),
    decreases items.len(),
{
    if items.len() > 0 {
        let prev = items.drop_last();
        let (fs0, ds0) = lower_items_spec(prev);
        let fs = lower_items_spec(items).0;
        let ds = lower_items_spec(items).1;
        match items.last() {
            Item::Function(f) => {
                let (fo, fd) = lower_tac_function_spec(f);
                assert(ds == ds0 + fd);
                assert forall|j: int| 0 <= j < ds0.len() implies (#[trigger] ds0[j]).severity
                    != crate::diagnostics::Severity::Bug by {
                    assert(ds[j] == ds0[j]);
                }
                lemma_items_labels(prev);
                match (f.name, f.body) {
                    (Some(name), Some(body)) => {
                        let st = lower_statements_spec(body@, initial_state());
                        lemma_statements_bugs(body@, initial_state());
                        if fd.len() > 0 {
                            assert(ds[ds0.len() as int] == fd[0]);
                        }
                        assert(st.diagnostics.len() == 0);
                        assert(labels_sound(initial_state(), Set::empty()));
                        lemma_statements_labels(body@, initial_state());
                        lemma_sound_resolves(st);
                        assert forall|k: int| 0 <= k < fs.len() implies labels_resolve(
                            (#[trigger] fs[k]).instructions,
                        ) by {
                            if k < fs0.len() {
                                assert(fs[k] == fs0[k]);
                            } else {
                                assert(fs[k].instructions == st.instructions);
                            }
                        }
                    },
                    _ => {
                        assert(fs == fs0);
                    },
                }
            },
            Item::Unsupported { .. } => {
                assert(ds[ds0.len() as int].severity == crate::diagnostics::Severity::Bug);
            },
        }
    }
}

/// In every function of a program whose lowering reports no `Bug` (no
/// unsupported construct), each jump goes to a label that exactly one
/// instruction of the function defines.
pub proof fn lemma_labels_resolve(unit: TranslationUnit)
    requires
        no_bugs(lower_spec(unit).1),
    ensures
        forall|k: int|
            0 <= k < lower_spec(unit).0.functions.len() ==> labels_resolve(
                (#[trigger] lower_spec(unit).0.functions[k]).instructions,
            ),
{
    let (fs, ds) = lower_items_spec(unit.items@);
    assert forall|j: int| 0 <= j < ds.len() implies (#[trigger] ds[j]).severity
        != crate::diagnostics::Severity::Bug by {
        assert(lower_spec(unit).1[j] == ds[j]);
    }
    lemma_items_labels(unit.items@);
}

/// The variables a three-address value names.
pub open spec fn val_variables(v: ValModel) -> Set<VariableModel> {
    match v {
        ValModel::Var(x) => set![x],
        _ => Set::empty(),
    }
}

/// The variables an instruction reads or writes.
pub open spec fn instruction_variables(i: tacky::InstructionModel) -> Set<VariableModel> {
    match i {
        tacky::InstructionModel::Return(v) => val_variables(v),
        tacky::InstructionModel::Unary { src, dst, .. } => val_variables(src) + val_variables(dst),
        tacky::InstructionModel::Binary { left_src, right_src, dst, .. } => val_variables(left_src)
            + val_variables(right_src) + val_variables(dst),
        tacky::InstructionModel::Comparison { left_src, right_src, dst, .. } => val_variables(
            left_src,
        ) + val_variables(right_src) + val_variables(dst),
        tacky::InstructionModel::Copy { src, dst } => val_variables(src) + val_variables(dst),
        tacky::InstructionModel::JumpIfZero { condition, .. } => val_variables(condition),
        tacky::InstructionModel::JumpIfNotZero { condition, .. } => val_variables(condition),
        _ => Set::empty(),
    }
}

/// The distinct variables of a function body.
pub open spec fn function_variables(instrs: Seq<tacky::InstructionModel>) -> Set<VariableModel>
    decreases instrs.len(),
{
    if instrs.len() == 0 {
        Set::empty()
    } else {
        function_variables(instrs.drop_last()) + instruction_variables(instrs.last())
    }
}

pub open spec fn operand_offsets(o: Operand) -> Set<nat> {
    match o {
        Operand::Stack(k) => set![k as nat],
        _ => Set::empty(),
    }
}

/// The stack offsets an assembly instruction uses.
pub open spec fn instruction_offsets(i: InstructionModel) -> Set<nat> {
    match i {
        InstructionModel::Mov { src, dst } => operand_offsets(src) + operand_offsets(dst),
        InstructionModel::Unary { operand, .. } => operand_offsets(operand),
        InstructionModel::Binary { src, dst, .. } => operand_offsets(src) + operand_offsets(dst),
        InstructionModel::Idiv { src } => operand_offsets(src),
        InstructionModel::JumpIfZero { condition, .. } => operand_offsets(condition),
        InstructionModel::JumpIfNotZero { condition, .. } => operand_offsets(condition),
        InstructionModel::Comparison { left, right, dst, .. } => operand_offsets(left)
            + operand_offsets(right) + operand_offsets(dst),
        _ => Set::empty(),
    }
}

/// The stack offsets a list of assembly instructions uses.
pub open spec fn stack_offsets(instrs: Seq<InstructionModel>) -> Set<nat>
    decreases instrs.len(),
{
    if instrs.len() == 0 {
        Set::empty()
    } else {
        stack_offsets(instrs.drop_last()) + instruction_offsets(instrs.last())
    }
}

/// The offsets `0, 4, ..., 4 * (n - 1)`.
pub open spec fn slots(n: nat) -> Set<nat> {
    Set::new(|k: nat| k % 4 == 0 && k < 4 * n)
}

proof fn lemma_offsets_concat(a: Seq<InstructionModel>, b: Seq<InstructionModel>)
    ensures
        stack_offsets(a + b) == stack_offsets(a) + stack_offsets(b),
    decreases b.len(),
{
    if b.len() == 0 {
        assert(a + b =~= a);
        assert(stack_offsets(a) + Set::<nat>::empty() =~= stack_offsets(a));
    } else {
        lemma_offsets_concat(a, b.drop_last());
        assert((a + b).drop_last() =~= a + b.drop_last());
        assert(stack_offsets(a + b) =~= stack_offsets(a) + stack_offsets(b));
    }
}

proof fn lemma_offsets_single(i: InstructionModel)
    ensures
        stack_offsets(seq![i]) == instruction_offsets(i),
{
    assert(seq![i].drop_last() =~= Seq::<InstructionModel>::empty());
    assert(seq![i].last() == i);
    assert(stack_offsets(Seq::<InstructionModel>::empty()) == Set::<nat>::empty());
    assert(stack_offsets(seq![i]) == stack_offsets(seq![i].drop_last()) + instruction_offsets(i));
    assert(Set::<nat>::empty() + instruction_offsets(i) =~= instruction_offsets(i));
}

proof fn lemma_position_facts(vars: Seq<VariableModel>, x: VariableModel)
    ensures
        position(vars, x) matches Some(i) ==> i < vars.len() && vars[i as int] == x,
        position(vars, x) is None ==> !vars.contains(x),
    decreases vars.len(),
{
    if vars.len() > 0 {
        lemma_position_facts(vars.drop_last(), x);
        if position(vars, x) is None {
            assert forall|j: int| 0 <= j < vars.len() implies vars[j] != x by {
                if j < vars.len() - 1 {
                    assert(vars.drop_last()[j] == vars[j]);
                }
            }
        }
    }
}

proof fn lemma_operand_slots(vars: Seq<VariableModel>, v: ValModel)
    requires
        vars.no_duplicates(),
        4 * (vars.len() + 1) <= u32::MAX,
    ensures
        ({
            let (vs, o) = operand_spec(vars, v);
            &&& vs.no_duplicates()
            &&& vs.to_set() == vars.to_set() + val_variables(v)
            &&& vs.len() <= vars.len() + 1
            &&& slots(vars.len()) + operand_offsets(o) == slots(vs.len())
        }),
{
    let (vs, o) = operand_spec(vars, v);
    match v {
        ValModel::Constant(_) => {
            assert(vars.to_set() + Set::<VariableModel>::empty() =~= vars.to_set());
            assert(slots(vars.len()) + Set::<nat>::empty() =~= slots(vars.len()));
        },
        ValModel::Var(x) => {
            lemma_position_facts(vars, x);
            match position(vars, x) {
                Some(i) => {
                    assert(vars.to_set().contains(x));
                    assert(vars.to_set() + set![x] =~= vars.to_set());
                    assert((4 * i) as u32 as nat == 4 * i);
                    assert(slots(vars.len()).contains(4 * i));
                    assert(slots(vars.len()) + set![4 * i] =~= slots(vars.len()));
                },
                None => {
                    vars.lemma_push_to_set_commute(x);
                    assert(vars.to_set().insert(x) =~= vars.to_set() + set![x]);
                    assert forall|a: int, b: int| 0 <= a < vs.len() && 0 <= b < vs.len() && a != b implies vs[a]
                        != vs[b] by {
                        if a < vars.len() && b < vars.len() {
                            assert(vs[a] == vars[a] && vs[b] == vars[b]);
                        } else if a < vars.len() {
                            assert(vs[a] == vars[a]);
                            assert(vars.contains(vs[a]));
                        } else {
                            assert(vs[b] == vars[b]);
                            assert(vars.contains(vs[b]));
                        }
                    }
                    let n = vars.len();
                    assert((4 * n) as u32 as nat == 4 * n);
                    assert forall|k: nat| #[trigger] slots(n + 1).contains(k) <==> (slots(n) + set![4 * n]).contains(k) by {
                        if k % 4 == 0 && k < 4 * (n + 1) && k >= 4 * n {
                            assert(k == 4 * n);
                        }
                    }
                    assert(slots(n) + set![4 * n] =~= slots(n + 1));
                },
            }
        },
    }
}

proof fn lemma_select_slots(vars: Seq<VariableModel>, i: tacky::InstructionModel)
    requires
        vars.no_duplicates(),
        4 * (vars.len() + 3) <= u32::MAX,
    ensures
        ({
            let (vs, out) = select_spec(vars, i);
            &&& vs.no_duplicates()
            &&& vs.to_set() == vars.to_set() + instruction_variables(i)
            &&& vs.len() <= vars.len() + 3
            &&& slots(vars.len()) + stack_offsets(out) == slots(vs.len())
        }),
{
    let (vs, out) = select_spec(vars, i);
    match i {
        tacky::InstructionModel::Return(v) => {
            lemma_operand_slots(vars, v);
            let (v1, src) = operand_spec(vars, v);
            lemma_offsets_concat(seq![out[0]], seq![out[1]]);
            assert(out =~= seq![out[0]] + seq![out[1]]);
            lemma_offsets_single(out[0]);
            lemma_offsets_single(out[1]);
            assert(stack_offsets(out) =~= operand_offsets(src));
        },
        tacky::InstructionModel::Unary { op, src, dst } => {
            lemma_operand_slots(vars, src);
            let (v1, s1) = operand_spec(vars, src);
            lemma_operand_slots(v1, dst);
            let (v2, d) = operand_spec(v1, dst);
            lemma_offsets_concat(seq![out[0]], seq![out[1]]);
            assert(out =~= seq![out[0]] + seq![out[1]]);
            lemma_offsets_single(out[0]);
            lemma_offsets_single(out[1]);
            assert(stack_offsets(out) =~= operand_offsets(s1) + operand_offsets(d));
            assert(v2.to_set() =~= vars.to_set() + instruction_variables(i));
            assert(slots(vars.len()) + stack_offsets(out) =~= slots(v2.len()));
        },
        tacky::InstructionModel::Binary { op, left_src, right_src, dst } => {
            lemma_operand_slots(vars, left_src);
            let (v1, l) = operand_spec(vars, left_src);
            lemma_operand_slots(v1, right_src);
            let (v2, r) = operand_spec(v1, right_src);
            lemma_operand_slots(v2, dst);
            let (v3, d) = operand_spec(v2, dst);
            assert(v3.to_set() =~= vars.to_set() + instruction_variables(i));
            if out.len() == 3 {
                assert(out =~= seq![out[0]] + seq![out[1]] + seq![out[2]]);
                lemma_offsets_concat(seq![out[0]], seq![out[1]]);
                lemma_offsets_concat(seq![out[0]] + seq![out[1]], seq![out[2]]);
                lemma_offsets_single(out[0]);
                lemma_offsets_single(out[1]);
                lemma_offsets_single(out[2]);
            } else {
                assert(out =~= seq![out[0]] + seq![out[1]] + seq![out[2]] + seq![out[3]]);
                lemma_offsets_concat(seq![out[0]], seq![out[1]]);
                lemma_offsets_concat(seq![out[0]] + seq![out[1]], seq![out[2]]);
                lemma_offsets_concat(seq![out[0]] + seq![out[1]] + seq![out[2]], seq![out[3]]);
                lemma_offsets_single(out[0]);
                lemma_offsets_single(out[1]);
                lemma_offsets_single(out[2]);
                lemma_offsets_single(out[3]);
            }
            assert(stack_offsets(out) =~= operand_offsets(l) + operand_offsets(r) + operand_offsets(d));
            assert(slots(vars.len()) + stack_offsets(out) =~= slots(v3.len()));
        },
        tacky::InstructionModel::Comparison { op, left_src, right_src, dst } => {
            lemma_operand_slots(vars, left_src);
            let (v1, l) = operand_spec(vars, left_src);
            lemma_operand_slots(v1, right_src);
            let (v2, r) = operand_spec(v1, right_src);
            lemma_operand_slots(v2, dst);
            let (v3, d) = operand_spec(v2, dst);
            assert(v3.to_set() =~= vars.to_set() + instruction_variables(i));
            lemma_offsets_single(out[0]);
            assert(out =~= seq![out[0]]);
            assert(stack_offsets(out) =~= operand_offsets(l) + operand_offsets(r) + operand_offsets(d));
            assert(slots(vars.len()) + stack_offsets(out) =~= slots(v3.len()));
        },
        tacky::InstructionModel::Copy { src, dst } => {
            lemma_operand_slots(vars, src);
            let (v1, s1) = operand_spec(vars, src);
            lemma_operand_slots(v1, dst);
            let (v2, d) = operand_spec(v1, dst);
            assert(v2.to_set() =~= vars.to_set() + instruction_variables(i));
            lemma_offsets_single(out[0]);
            assert(out =~= seq![out[0]]);
            assert(stack_offsets(out) =~= operand_offsets(s1) + operand_offsets(d));
            assert(slots(vars.len()) + stack_offsets(out) =~= slots(v2.len()));
        },
        tacky::InstructionModel::JumpIfZero { condition, .. } => {
            lemma_operand_slots(vars, condition);
            lemma_offsets_single(out[0]);
            assert(out =~= seq![out[0]]);
        },
        tacky::InstructionModel::JumpIfNotZero { condition, .. } => {
            lemma_operand_slots(vars, condition);
            lemma_offsets_single(out[0]);
            assert(out =~= seq![out[0]]);
        },
        _ => {
            lemma_offsets_single(out[0]);
            assert(out =~= seq![out[0]]);
            assert(vars.to_set() + Set::<VariableModel>::empty() =~= vars.to_set());
            assert(slots(vars.len()) + Set::<nat>::empty() =~= slots(vars.len()));
        },
    }
}

proof fn lemma_select_all_slots(instrs: Seq<tacky::InstructionModel>)
    requires
        12 * (instrs.len() + 1) <= u32::MAX,
    ensures
        ({
            let (vars, out) = select_all_spec(instrs);
            &&& vars.no_duplicates()
            &&& vars.to_set() == function_variables(instrs)
            &&& vars.len() <= 3 * instrs.len()
            &&& stack_offsets(out) == slots(vars.len())
        }),
    decreases instrs.len(),
{
    if instrs.len() == 0 {
        assert(Seq::<VariableModel>::empty().to_set() =~= Set::<VariableModel>::empty());
        assert(slots(0) =~= Set::<nat>::empty());
    } else {
        let prev = instrs.drop_last();
        lemma_select_all_slots(prev);
        let (vars, out) = select_all_spec(prev);
        lemma_select_slots(vars, instrs.last());
        let (vs, more) = select_spec(vars, instrs.last());
        lemma_offsets_concat(out, more);
    }
}

proof fn lemma_fix_up_offsets(instrs: Seq<InstructionModel>)
    ensures
        stack_offsets(fix_up_spec(instrs)) == stack_offsets(instrs),
    decreases instrs.len(),
{
    if instrs.len() > 0 {
        lemma_fix_up_offsets(instrs.drop_last());
        let i = instrs.last();
        let more = fix_up_one(i);
        lemma_offsets_concat(fix_up_spec(instrs.drop_last()), more);
        if more.len() == 2 {
            assert(more =~= seq![more[0]] + seq![more[1]]);
            lemma_offsets_concat(seq![more[0]], seq![more[1]]);
            lemma_offsets_single(more[0]);
            lemma_offsets_single(more[1]);
            assert(stack_offsets(more) =~= instruction_offsets(i));
        } else {
            lemma_offsets_single(i);
        }
    }
}

/// The stack slots that code generation gives a function are `0, 4, ...,
/// 4 * (n - 1)`, where `n` is the number of distinct variables of the
/// three-address function; the frame reserves exactly that much.
pub proof fn lemma_stack_slots(f: tacky::FunctionModel)
    requires
        codegen_within_limits(f),
    ensures
        stack_offsets(lower_function_spec(f).instructions) == slots(function_variables(f.instructions).len()),
{
    lemma_select_all_slots(f.instructions);
    let (vars, body) = select_all_spec(f.instructions);
    vars.unique_seq_to_set();
    let a = to_assembly_spec(f);
    lemma_fix_up_offsets(a.instructions);
    if vars.len() > 0 {
        let alloc = seq![InstructionModel::AllocateStack((4 * vars.len()) as u32)];
        lemma_offsets_concat(alloc, body);
        lemma_offsets_single(alloc[0]);
        assert(Set::<nat>::empty() + stack_offsets(body) =~= stack_offsets(body));
    }
}

/// The number of label instructions of `instrs` that define `t`.
pub open spec fn tac_label_count(instrs: Seq<tacky::InstructionModel>, t: Seq<char>) -> nat
    decreases instrs.len(),
{
    if instrs.len() == 0 {
        0
    } else {
        tac_label_count(instrs.drop_last(), t) + if label_of(instrs.last()) == Some(t) {
            1nat
        } else {
            0
        }
    }
}

/// The labels that the jumps of `instrs` go to.
pub open spec fn tac_jump_targets(instrs: Seq<tacky::InstructionModel>) -> Set<Seq<char>>
    decreases instrs.len(),
{
    if instrs.len() == 0 {
        Set::empty()
    } else {
        tac_jump_targets(instrs.drop_last()) + match jump_target(instrs.last()) {
            Some(t) => set![t],
            None => Set::empty(),
        }
    }
}

pub open spec fn asm_label_of(i: InstructionModel) -> Option<Seq<char>> {
    match i {
        InstructionModel::Label(t) => Some(t),
        _ => None,
    }
}

pub open spec fn asm_jump_target(i: InstructionModel) -> Option<Seq<char>> {
    match i {
        InstructionModel::Jump { target } => Some(target),
        InstructionModel::JumpIfZero { target, .. } => Some(target),
        InstructionModel::JumpIfNotZero { target, .. } => Some(target),
        _ => None,
    }
}

/// The number of label instructions of `instrs` that define `t`.
pub open spec fn asm_label_count(instrs: Seq<InstructionModel>, t: Seq<char>) -> nat
    decreases instrs.len(),
{
    if instrs.len() == 0 {
        0
    } else {
        asm_label_count(instrs.drop_last(), t) + if asm_label_of(instrs.last()) == Some(t) {
            1nat
        } else {
            0
        }
    }
}

/// The labels that the jumps of `instrs` go to.
pub open spec fn asm_jump_targets(instrs: Seq<InstructionModel>) -> Set<Seq<char>>
    decreases instrs.len(),
{
    if instrs.len() == 0 {
        Set::empty()
    } else {
        asm_jump_targets(instrs.drop_last()) + match asm_jump_target(instrs.last()) {
            Some(t) => set![t],
            None => Set::empty(),
        }
    }
}

/// Every jump of an assembly function goes to a label defined exactly once.
pub open spec fn asm_labels_resolve(instrs: Seq<InstructionModel>) -> bool {
    forall|t: Seq<char>| #[trigger] asm_jump_targets(instrs).contains(t) ==> asm_label_count(instrs, t) == 1
}

proof fn lemma_tac_count(instrs: Seq<tacky::InstructionModel>, t: Seq<char>, k: int)
    requires
        -1 <= k < instrs.len(),
        k >= 0 ==> label_of(instrs[k]) == Some(t),
        forall|m: int| 0 <= m < instrs.len() && m != k ==> label_of(#[trigger] instrs[m]) != Some(t),
    ensures
        tac_label_count(instrs, t) == if k >= 0 { 1nat } else { 0nat },
    decreases instrs.len(),
{
    if instrs.len() > 0 {
        let prev = instrs.drop_last();
        let last = instrs.len() - 1;
        assert forall|m: int| 0 <= m < prev.len() && m != (if k == last { -1 } else { k }) implies label_of(
            #[trigger] prev[m],
        ) != Some(t) by {
            assert(prev[m] == instrs[m]);
        }
        if k == last {
            lemma_tac_count(prev, t, -1);
        } else {
            if k >= 0 {
                assert(prev[k] == instrs[k]);
            }
            lemma_tac_count(prev, t, k);
        }
    }
}

proof fn lemma_tac_targets_have_jumps(instrs: Seq<tacky::InstructionModel>, t: Seq<char>)
    requires
        tac_jump_targets(instrs).contains(t),
    ensures
        exists|j: int| 0 <= j < instrs.len() && #[trigger] jump_target(instrs[j]) == Some(t),
    decreases instrs.len(),
{
    let prev = instrs.drop_last();
    if tac_jump_targets(prev).contains(t) {
        lemma_tac_targets_have_jumps(prev, t);
        let j = choose|j: int| 0 <= j < prev.len() && #[trigger] jump_target(prev[j]) == Some(t);
        assert(prev[j] == instrs[j]);
    } else {
        assert(jump_target(instrs[instrs.len() - 1]) == Some(t));
    }
}

/// Selection turns each instruction's labels and jumps into the same ones.
proof fn lemma_select_control(vars: Seq<VariableModel>, i: tacky::InstructionModel, t: Seq<char>)
    ensures
        asm_label_count(select_spec(vars, i).1, t) == (if label_of(i) == Some(t) { 1nat } else { 0nat }),
        asm_jump_targets(select_spec(vars, i).1) == match jump_target(i) {
            Some(x) => set![x],
            None => Set::<Seq<char>>::empty(),
        },
{
    let out = select_spec(vars, i).1;
    assert forall|k: int| 0 <= k <= out.len() implies asm_label_count(#[trigger] out.subrange(0, k), t) == (if k
        == out.len() && label_of(i) == Some(t) { 1nat } else { 0nat }) && asm_jump_targets(
        out.subrange(0, k),
    ) == (if k == out.len() {
        match jump_target(i) {
            Some(x) => set![x],
            None => Set::<Seq<char>>::empty(),
        }
    } else {
        Set::<Seq<char>>::empty()
    }) by {
        lemma_select_control_prefix(vars, i, t, k);
    }
    assert(out.subrange(0, out.len() as int) =~= out);
}

proof fn lemma_select_control_prefix(vars: Seq<VariableModel>, i: tacky::InstructionModel, t: Seq<char>, k: int)
    requires
        0 <= k <= select_spec(vars, i).1.len(),
    ensures
        asm_label_count(select_spec(vars, i).1.subrange(0, k), t) == (if k == select_spec(vars, i).1.len()
            && label_of(i) == Some(t) { 1nat } else { 0nat }),
        asm_jump_targets(select_spec(vars, i).1.subrange(0, k)) == (if k == select_spec(vars, i).1.len() {
            match jump_target(i) {
                Some(x) => set![x],
                None => Set::<Seq<char>>::empty(),
            }
        } else {
            Set::<Seq<char>>::empty()
        }),
    decreases k,
{
    let out = select_spec(vars, i).1;
    if k > 0 {
        lemma_select_control_prefix(vars, i, t, k - 1);
        assert(out.subrange(0, k).drop_last() =~= out.subrange(0, k - 1));
        assert(out.subrange(0, k).last() == out[k - 1]);
        if k < out.len() {
            assert(asm_label_of(out[k - 1]) is None && asm_jump_target(out[k - 1]) is None);
        }
        assert(asm_jump_targets(out.subrange(0, k)) =~= (if k == out.len() {
            match jump_target(i) {
                Some(x) => set![x],
                None => Set::<Seq<char>>::empty(),
            }
        } else {
            Set::<Seq<char>>::empty()
        }));
    } else {
        assert(out.subrange(0, 0) =~= Seq::<InstructionModel>::empty());
    }
}

proof fn lemma_asm_control_concat(a: Seq<InstructionModel>, b: Seq<InstructionModel>, t: Seq<char>)
    ensures
        asm_label_count(a + b, t) == asm_label_count(a, t) + asm_label_count(b, t),
        asm_jump_targets(a + b) == asm_jump_targets(a) + asm_jump_targets(b),
    decreases b.len(),
{
    if b.len() == 0 {
        assert(a + b =~= a);
        assert(asm_jump_targets(a) + Set::<Seq<char>>::empty() =~= asm_jump_targets(a));
    } else {
        lemma_asm_control_concat(a, b.drop_last(), t);
        assert((a + b).drop_last() =~= a + b.drop_last());
        assert((a + b).last() == b.last());
        assert(asm_jump_targets(a + b) =~= asm_jump_targets(a) + asm_jump_targets(b));
    }
}

proof fn lemma_asm_control_single(i: InstructionModel, t: Seq<char>)
    ensures
        asm_label_count(seq![i], t) == (if asm_label_of(i) == Some(t) { 1nat } else { 0nat }),
        asm_jump_targets(seq![i]) == match asm_jump_target(i) {
            Some(x) => set![x],
            None => Set::<Seq<char>>::empty(),
        },
{
    assert(seq![i].drop_last() =~= Seq::<InstructionModel>::empty());
    assert(seq![i].last() == i);
    assert(asm_jump_targets(Seq::<InstructionModel>::empty()) == Set::<Seq<char>>::empty());
    assert(asm_label_count(Seq::<InstructionModel>::empty(), t) == 0);
    assert(asm_jump_targets(seq![i]) =~= match asm_jump_target(i) {
        Some(x) => set![x],
        None => Set::<Seq<char>>::empty(),
    });
}

/// Selection keeps the labels and jumps of a function, in number and target.
proof fn lemma_select_all_control(instrs: Seq<tacky::InstructionModel>, t: Seq<char>)
    ensures
        asm_label_count(select_all_spec(instrs).1, t) == tac_label_count(instrs, t),
        asm_jump_targets(select_all_spec(instrs).1) == tac_jump_targets(instrs),
    decreases instrs.len(),
{
    if instrs.len() > 0 {
        let prev = instrs.drop_last();
        lemma_select_all_control(prev, t);
        let (vars, out) = select_all_spec(prev);
        lemma_select_control(vars, instrs.last(), t);
        lemma_asm_control_concat(out, select_spec(vars, instrs.last()).1, t);
    }
}

/// The fix-up pass keeps the labels and jumps of a function.
proof fn lemma_fix_up_control(instrs: Seq<InstructionModel>, t: Seq<char>)
    ensures
        asm_label_count(fix_up_spec(instrs), t) == asm_label_count(instrs, t),
        asm_jump_targets(fix_up_spec(instrs)) == asm_jump_targets(instrs),
    decreases instrs.len(),
{
    if instrs.len() > 0 {
        let prev = instrs.drop_last();
        lemma_fix_up_control(prev, t);
        let i = instrs.last();
        let more = fix_up_one(i);
        lemma_asm_control_concat(fix_up_spec(prev), more, t);
        lemma_asm_control_concat(prev, seq![i], t);
        assert(prev + seq![i] =~= instrs);
        if more.len() == 2 {
            assert(more =~= seq![more[0]] + seq![more[1]]);
            lemma_asm_control_concat(seq![more[0]], seq![more[1]], t);
            lemma_asm_control_single(more[0], t);
            lemma_asm_control_single(more[1], t);
            lemma_asm_control_single(i, t);
            assert(asm_jump_targets(seq![more[0]]) + asm_jump_targets(seq![more[1]]) =~= asm_jump_targets(seq![i]));
        } else {
            assert(more == seq![i]);
        }
    }
}

/// The labels and jumps of a generated function are those of its source.
proof fn lemma_codegen_control(f: tacky::FunctionModel, t: Seq<char>)
    ensures
        asm_label_count(lower_function_spec(f).instructions, t) == tac_label_count(f.instructions, t),
        asm_jump_targets(lower_function_spec(f).instructions) == tac_jump_targets(f.instructions),
{
    lemma_select_all_control(f.instructions, t);
    let (vars, body) = select_all_spec(f.instructions);
    let a = to_assembly_spec(f);
    lemma_fix_up_control(a.instructions, t);
    if vars.len() > 0 {
        let alloc = seq![InstructionModel::AllocateStack((4 * vars.len()) as u32)];
        lemma_asm_control_concat(alloc, body, t);
        lemma_asm_control_single(alloc[0], t);
        assert(alloc =~= seq![alloc[0]]);
        assert(Set::<Seq<char>>::empty() + asm_jump_targets(body) =~= asm_jump_targets(body));
    }
}

/// Code generation keeps label resolution: where every jump of a
/// three-address function goes to exactly one label, the same holds of the
/// generated assembly.
pub proof fn lemma_codegen_keeps_labels_resolved(f: tacky::FunctionModel)
    requires
        labels_resolve(f.instructions),
    ensures
        asm_labels_resolve(lower_function_spec(f).instructions),
{
    assert forall|t: Seq<char>| #[trigger] asm_jump_targets(lower_function_spec(f).instructions).contains(t)
        implies asm_label_count(lower_function_spec(f).instructions, t) == 1 by {
        lemma_codegen_control(f, t);
        lemma_tac_targets_have_jumps(f.instructions, t);
        let j = choose|j: int| 0 <= j < f.instructions.len() && #[trigger] jump_target(f.instructions[j]) == Some(t);
        let k2 = choose|k2: int|
            0 <= k2 < f.instructions.len() && label_of(f.instructions[k2]) == jump_target(f.instructions[j])
                && forall|m: int|
                0 <= m < f.instructions.len() && #[trigger] label_of(f.instructions[m]) == jump_target(
                    f.instructions[j],
                ) ==> m == k2;
        lemma_tac_count(f.instructions, t, k2);
    }
}

/// In every generated function of a program whose lowering reports no
/// `Bug`, each jump goes to a label defined exactly once.
pub proof fn lemma_assembly_labels_resolve(unit: TranslationUnit)
    requires
        no_bugs(lower_spec(unit).1),
    ensures
        forall|k: int|
            0 <= k < generate_assembly_spec(lower_spec(unit).0).functions.len() ==> asm_labels_resolve(
                (#[trigger] generate_assembly_spec(lower_spec(unit).0).functions[k]).instructions,
            ),
{
    lemma_labels_resolve(unit);
    let p = lower_spec(unit).0;
    assert forall|k: int| 0 <= k < generate_assembly_spec(p).functions.len() implies asm_labels_resolve(
        (#[trigger] generate_assembly_spec(p).functions[k]).instructions,
    ) by {
        assert(generate_assembly_spec(p).functions[k] == lower_function_spec(p.functions[k]));
        lemma_codegen_keeps_labels_resolved(p.functions[k]);
    }
}

/// The first label instruction at or after `from` that defines `t`, or `-1`.
pub open spec fn find_label(instrs: Seq<tacky::InstructionModel>, t: Seq<char>, from: int) -> int
    decreases instrs.len() - from,
{
    if from < 0 || from >= instrs.len() {
        -1
    } else if instrs[from] == tacky::InstructionModel::Label(t) {
        from
    } else {
        find_label(instrs, t, from + 1)
    }
}

/// The value of a three-address value in an environment of variables.
pub open spec fn value_in(v: ValModel, env: Map<VariableModel, i32>) -> i32 {
    match v {
        ValModel::Constant(c) => c,
        ValModel::Var(x) => env[x],
    }
}

pub open spec fn compare(op: tacky::ComparisonOperator, a: i32, b: i32) -> i32 {
    let r = match op {
        tacky::ComparisonOperator::Equal => a == b,
        tacky::ComparisonOperator::NotEqual => a != b,
        tacky::ComparisonOperator::LessThan => a < b,
        tacky::ComparisonOperator::LessThanOrEqual => a <= b,
        tacky::ComparisonOperator::GreaterThan => a > b,
        tacky::ComparisonOperator::GreaterThanOrEqual => a >= b,
    };
    if r {
        1
    } else {
        0
    }
}

/// What a function returns when run from instruction `pc` with `fuel`
/// steps, for the instructions that control flow uses: copies,
/// comparisons, jumps, labels and returns. `None` where the fuel runs out,
/// control leaves the function, or another instruction is reached.
pub open spec fn run(instrs: Seq<tacky::InstructionModel>, pc: int, env: Map<VariableModel, i32>, fuel: nat) -> Option<i32>
    decreases fuel,
{
    if fuel == 0 || pc < 0 || pc >= instrs.len() {
        None
    } else {
        match instrs[pc] {
            tacky::InstructionModel::Return(v) => Some(value_in(v, env)),
            tacky::InstructionModel::Copy { src, dst: ValModel::Var(x) } => run(
                instrs,
                pc + 1,
                env.insert(x, value_in(src, env)),
                (fuel - 1) as nat,
            ),
            tacky::InstructionModel::Comparison { op, left_src, right_src, dst: ValModel::Var(x) } => run(
                instrs,
                pc + 1,
                env.insert(x, compare(op, value_in(left_src, env), value_in(right_src, env))),
                (fuel - 1) as nat,
            ),
            tacky::InstructionModel::Label(_) => run(instrs, pc + 1, env, (fuel - 1) as nat),
            tacky::InstructionModel::Jump { target } => run(
                instrs,
                find_label(instrs, target, 0),
                env,
                (fuel - 1) as nat,
            ),
            tacky::InstructionModel::JumpIfZero { condition, target } => run(
                instrs,
                if value_in(condition, env) == 0 {
                    find_label(instrs, target, 0)
                } else {
                    pc + 1
                },
                env,
                (fuel - 1) as nat,
            ),
            tacky::InstructionModel::JumpIfNotZero { condition, target } => run(
                instrs,
                if value_in(condition, env) != 0 {
                    find_label(instrs, target, 0)
                } else {
                    pc + 1
                },
                env,
                (fuel - 1) as nat,
            ),
            _ => None,
        }
    }
}

/// The value of a valid `int` literal, possibly in parentheses.
pub open spec fn literal_value(e: Expression) -> Option<i32>
    decreases e,
{
    match e {
        Expression::NumberLiteral { text, .. } => if crate::text::is_decimal(text@)
            && crate::text::decimal_value(text@) <= i32::MAX {
            Some(crate::text::decimal_value(text@) as i32)
        } else {
            None
        },
        Expression::Parenthesized { inner: Some(i), .. } => literal_value(*i),
        _ => None,
    }
}

/// A literal lowers to its constant and emits nothing.
proof fn lemma_literal_lowering(e: Expression, s: LowerState)
    requires
        literal_value(e) is Some,
    ensures
        lower_expression_spec(e, s) == (s, Some(ValModel::Constant(literal_value(e)->Some_0))),
    decreases e,
{
    match e {
        Expression::Parenthesized { inner: Some(i), .. } => lemma_literal_lowering(*i, s),
        _ => {},
    }
}

/// For operands that are `int` literals with values `a` and `b`, the code
/// lowered for `a && b` returns `0` exactly when `a == 0` or `b == 0`, and `1`
/// otherwise; the code for `a || b` returns `1` exactly when `a != 0` or
/// `b != 0`. The code is the instructions the operator emits followed by a
/// return of its result, run from its first instruction.
pub proof fn lemma_short_circuit_of_literals(e: Expression, s: LowerState)
    requires
        e matches Expression::Binary { op, left, right, .. } && (op == BinaryOp::LogicalAnd || op
            == BinaryOp::LogicalOr) && literal_value(*left) is Some && literal_value(*right) is Some,
        s.next + 4 <= u32::MAX,
    ensures
        ({
            let (s2, v) = lower_expression_spec(e, s);
            let code = s2.instructions.subrange(s.instructions.len() as int, s2.instructions.len() as int)
                .push(tacky::InstructionModel::Return(v->Some_0));
            let a = literal_value(*e->Binary_left)->Some_0;
            let b = literal_value(*e->Binary_right)->Some_0;
            &&& v is Some
            &&& e->Binary_op == BinaryOp::LogicalAnd ==> run(code, 0, Map::empty(), 8) == Some(
                if a != 0 && b != 0 { 1i32 } else { 0i32 },
            )
            &&& e->Binary_op == BinaryOp::LogicalOr ==> run(code, 0, Map::empty(), 8) == Some(
                if a != 0 || b != 0 { 1i32 } else { 0i32 },
            )
        }),
{
    let left = *e->Binary_left;
    let right = *e->Binary_right;
    let and = e->Binary_op == BinaryOp::LogicalAnd;
    let a = literal_value(left)->Some_0;
    let b = literal_value(right)->Some_0;
    let n = s.next;
    lemma_literal_lowering(left, s);
    let test = if and {
        tacky::InstructionModel::JumpIfZero { condition: ValModel::Constant(a), target: label_name(n) }
    } else {
        tacky::InstructionModel::JumpIfNotZero { condition: ValModel::Constant(a), target: label_name(n) }
    };
    let sa = emit(advance(s, 3), test);
    lemma_literal_lowering(right, sa);
    let (s2, v) = lower_expression_spec(e, s);
    let t2 = crate::lowering::temp(n + 2);
    let t3 = crate::lowering::temp(n + 3);
    let x2 = VariableModel::Anonymous((n + 2) as u32);
    let x3 = VariableModel::Anonymous((n + 3) as u32);
    assert(v == Some(t2));
    let code = s2.instructions.subrange(s.instructions.len() as int, s2.instructions.len() as int).push(
        tacky::InstructionModel::Return(t2),
    );
    let short = if and { 0i32 } else { 1i32 };
    assert(code =~= seq![
        test,
        tacky::InstructionModel::Comparison {
            op: tacky::ComparisonOperator::NotEqual,
            left_src: ValModel::Constant(0),
            right_src: ValModel::Constant(b),
            dst: t3,
        },
        tacky::InstructionModel::Copy { src: t3, dst: t2 },
        tacky::InstructionModel::Jump { target: label_name(n + 1) },
        tacky::InstructionModel::Label(label_name(n)),
        tacky::InstructionModel::Copy { src: ValModel::Constant(short), dst: t2 },
        tacky::InstructionModel::Label(label_name(n + 1)),
        tacky::InstructionModel::Return(t2),
    ]);
    lemma_label_name_injective(n, n + 1);
    assert(find_label(code, label_name(n), 4) == 4);
    assert(find_label(code, label_name(n), 3) == 4);
    assert(find_label(code, label_name(n), 2) == 4);
    assert(find_label(code, label_name(n), 1) == 4);
    assert(find_label(code, label_name(n), 0) == 4);
    assert(label_name(n) != label_name(n + 1));
    assert(find_label(code, label_name(n + 1), 6) == 6);
    assert(find_label(code, label_name(n + 1), 5) == 6);
    assert(code[4] != tacky::InstructionModel::Label(label_name(n + 1)));
    assert(find_label(code, label_name(n + 1), 4) == 6);
    assert(find_label(code, label_name(n + 1), 3) == 6);
    assert(find_label(code, label_name(n + 1), 2) == 6);
    assert(find_label(code, label_name(n + 1), 1) == 6);
    assert(find_label(code, label_name(n + 1), 0) == 6);
    let empty = Map::<VariableModel, i32>::empty();
    let taken = if and { a == 0 } else { a != 0 };
    if taken {
        let env = empty.insert(x2, short);
        assert(env[x2] == short);
        assert(run(code, 7, env, 4) == Some(short));
        assert(run(code, 6, env, 5) == Some(short));
        assert(run(code, 5, empty, 6) == Some(short));
        assert(run(code, 0, empty, 8) == run(code, 4, empty, 7));
        assert(run(code, 4, empty, 7) == Some(short));
    } else {
        let c = compare(tacky::ComparisonOperator::NotEqual, 0, b);
        let e1 = empty.insert(x3, c);
        let e2 = e1.insert(x2, c);
        assert(x2 != x3);
        assert(e2[x2] == c);
        assert(run(code, 7, e2, 3) == Some(c));
        assert(run(code, 6, e2, 4) == Some(c));
        assert(run(code, 3, e2, 5) == Some(c));
        assert(run(code, 2, e1, 6) == Some(c));
        assert(run(code, 1, empty, 7) == Some(c));
        assert(run(code, 0, empty, 8) == Some(c));
    }
}

} // verus!
