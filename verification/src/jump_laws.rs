use crate::ast::{
    ASTNode, Arguments, Block, BlockItem, Declaration, Expression, ForInit, FunctionDeclaration,
    NameList, Statement, TypeList, VariableDeclaration,
};
use crate::errors::ErrorKind;
use crate::gen_laws::{
    extends, lemma_gen_expr_extends, lemma_gen_opt_extends, lemma_gen_stmt_extends,
    lemma_gen_var_decl_extends,
};
use crate::lexer::{BinaryOperator, StorageClass, Type};
use crate::resolve::{args_len, items_jump_to_innermost, jumps_to_innermost};
use crate::symbols::assoc_insert;
use crate::tac::{Label, LabelKind, Operand, Pseudoregister, Reg, TACInstruction};
use crate::tac_generator::{
    arg_reg, cast_instruction, emit, inc_dec_op, loop_label, new_label, new_temp, one,
    spec_add_default_return, spec_gen_expr, spec_gen_function, spec_gen_items, spec_gen_opt,
    spec_gen_params, spec_gen_pushes, spec_gen_register_args, spec_gen_stmt, spec_gen_var_decl,
    zero, GenRes, GenState, PARAMETER_LIMIT,
};
use vstd::prelude::*;

verus! {

// ---------------------------------------------------------------------------
// Every jump has its label.
// ---------------------------------------------------------------------------

/// The label an instruction jumps to, if it jumps.
pub open spec fn jump_target(i: TACInstruction) -> Option<Label> {
    match i {
        TACInstruction::JumpIfZero { label, .. } => Some(label),
        TACInstruction::JumpIfNotZero { label, .. } => Some(label),
        TACInstruction::Jump { label } => Some(label),
        _ => None,
    }
}

/// Whether the code places label `l`.
pub open spec fn places(code: Seq<TACInstruction>, l: Label) -> bool {
    exists|j: int| 0 <= j < code.len() && code[j] == (TACInstruction::Label { label: l })
}

/// Every jump of the code goes to a label the code places or to one of `allowed`.
pub open spec fn jumps_placed(code: Seq<TACInstruction>, allowed: Set<Label>) -> bool {
    forall|i: int|
        0 <= i < code.len() && #[trigger] jump_target(code[i]) is Some ==> allowed.contains(
            jump_target(code[i])->Some_0,
        ) || places(code, jump_target(code[i])->Some_0)
}

proof fn lemma_places_push(code: Seq<TACInstruction>, x: TACInstruction, l: Label)
    requires
        places(code, l),
    ensures
        places(code.push(x), l),
{
    let j = choose|j: int| 0 <= j < code.len() && code[j] == (TACInstruction::Label { label: l });
    assert(code.push(x)[j] == code[j]);
}

/// Appending an instruction keeps every jump placed when it is no jump or
/// when it jumps to an allowed label.
proof fn lemma_jumps_placed_push(code: Seq<TACInstruction>, allowed: Set<Label>, x: TACInstruction)
    requires
        jumps_placed(code, allowed),
        jump_target(x) matches Some(t) ==> allowed.contains(t),
    ensures
        jumps_placed(code.push(x), allowed),
{
    let c2 = code.push(x);
    assert forall|i: int|
        0 <= i < c2.len() && #[trigger] jump_target(c2[i]) is Some implies allowed.contains(
            jump_target(c2[i])->Some_0,
        ) || places(c2, jump_target(c2[i])->Some_0) by {
        if i < code.len() {
            assert(c2[i] == code[i]);
            let t = jump_target(code[i])->Some_0;
            if !allowed.contains(t) {
                lemma_places_push(code, x, t);
            }
        }
    }
}

proof fn lemma_jumps_placed_weaken(code: Seq<TACInstruction>, a: Set<Label>, b: Set<Label>)
    requires
        jumps_placed(code, a),
        a.subset_of(b),
    ensures
        jumps_placed(code, b),
{
}

/// Placing label `l` lets the code stop counting on `l` being placed elsewhere.
proof fn lemma_jumps_placed_define(code: Seq<TACInstruction>, allowed: Set<Label>, l: Label)
    requires
        jumps_placed(code, allowed.insert(l)),
        places(code, l),
    ensures
        jumps_placed(code, allowed),
{
}


proof fn lemma_emit_jumps(st: GenState, allowed: Set<Label>, i: TACInstruction)
    requires
        jumps_placed(st.instrs, allowed),
        jump_target(i) matches Some(t) ==> allowed.contains(t),
    ensures
        jumps_placed(emit(st, i).instrs, allowed),
{
    lemma_jumps_placed_push(st.instrs, allowed, i);
}

/// The last instruction of the code places `l`.
proof fn lemma_last_places(code: Seq<TACInstruction>, l: Label)
    requires
        code.len() > 0,
        code.last() == (TACInstruction::Label { label: l }),
    ensures
        places(code, l),
{
    assert(code[code.len() - 1] == (TACInstruction::Label { label: l }));
}

proof fn lemma_extends_places(a: GenState, b: GenState, l: Label)
    requires
        extends(a, b),
        places(a.instrs, l),
    ensures
        places(b.instrs, l),
{
    let j = choose|j: int| 0 <= j < a.instrs.len() && a.instrs[j] == (TACInstruction::Label { label: l });
    assert(b.instrs[j] == a.instrs[j]);
}

pub open spec fn expr_jumps_placed(st: GenState, r: GenRes<Operand>, allowed: Set<Label>) -> bool {
    r matches Ok((_, st2)) ==> jumps_placed(st2.instrs, allowed)
}

pub open spec fn step_jumps_placed(r: Result<GenState, ErrorKind>, allowed: Set<Label>) -> bool {
    r matches Ok(st2) ==> jumps_placed(st2.instrs, allowed)
}

proof fn lemma_gen_logical_jumps(st: GenState, e: ASTNode, allowed: Set<Label>)
    requires
        jumps_placed(st.instrs, allowed),
        e.kind matches Expression::Binary { op, .. } && (op == BinaryOperator::LogicalAnd || op
            == BinaryOperator::LogicalOr),
    ensures
        expr_jumps_placed(st, spec_gen_expr(st, e), allowed),
    decreases e, 0nat,
{
    match e.kind {
        Expression::Binary { op, left, right } => {
            let and = op == BinaryOperator::LogicalAnd;
            if let Ok((short, st1)) = new_label(st, if and { LabelKind::False } else { LabelKind::True }) {
                if let Ok((end, st2)) = new_label(st1, LabelKind::End) {
                    let inner = allowed.insert(short).insert(end);
                    lemma_jumps_placed_weaken(st2.instrs, allowed, inner);
                    lemma_gen_expr_jumps(st2, *left, inner);
                    if let Ok((lv, st3)) = spec_gen_expr(st2, *left) {
                        let j1 = if and {
                            TACInstruction::JumpIfZero { label: short, operand: lv }
                        } else {
                            TACInstruction::JumpIfNotZero { label: short, operand: lv }
                        };
                        let st4 = emit(st3, j1);
                        lemma_emit_jumps(st3, inner, j1);
                        lemma_gen_expr_jumps(st4, *right, inner);
                        if let Ok((rv, st5)) = spec_gen_expr(st4, *right) {
                            let j2 = if and {
                                TACInstruction::JumpIfZero { label: short, operand: rv }
                            } else {
                                TACInstruction::JumpIfNotZero { label: short, operand: rv }
                            };
                            let st6 = emit(st5, j2);
                            lemma_emit_jumps(st5, inner, j2);
                            if let Ok((dest, st7)) = new_temp(st6, Type::Int) {
                                let (fall, taken) = if and {
                                    (one(), zero())
                                } else {
                                    (zero(), one())
                                };
                                let i1 = TACInstruction::StoreValueInstruction { dest, src: fall };
                                let i2 = TACInstruction::Jump { label: end };
                                let i3 = TACInstruction::Label { label: short };
                                let i4 = TACInstruction::StoreValueInstruction { dest, src: taken };
                                let i5 = TACInstruction::Label { label: end };
                                let s1 = emit(st7, i1);
                                let s2 = emit(s1, i2);
                                let s3 = emit(s2, i3);
                                let s4 = emit(s3, i4);
                                let s5 = emit(s4, i5);
                                lemma_emit_jumps(st7, inner, i1);
                                lemma_emit_jumps(s1, inner, i2);
                                lemma_emit_jumps(s2, inner, i3);
                                lemma_emit_jumps(s3, inner, i4);
                                lemma_emit_jumps(s4, inner, i5);
                                lemma_last_places(s3.instrs, short);
                                lemma_places_push(s3.instrs, i4, short);
                                lemma_places_push(s4.instrs, i5, short);
                                lemma_last_places(s5.instrs, end);
                                lemma_jumps_placed_define(s5.instrs, allowed.insert(short), end);
                                lemma_jumps_placed_define(s5.instrs, allowed, short);
                            }
                        }
                    }
                }
            }
        },
        _ => {},
    }
}

proof fn lemma_gen_condition_jumps(st: GenState, e: ASTNode, allowed: Set<Label>)
    requires
        jumps_placed(st.instrs, allowed),
        e.kind is Condition,
    ensures
        expr_jumps_placed(st, spec_gen_expr(st, e), allowed),
    decreases e, 0nat,
{
    match e.kind {
        Expression::Condition { condition, if_true, if_false } => {
            lemma_gen_expr_jumps(st, *condition, allowed);
            if let Ok((cv, st1)) = spec_gen_expr(st, *condition) {
                if let Ok((else_l, st2)) = new_label(st1, LabelKind::Else) {
                    if let Ok((end_l, st3)) = new_label(st2, LabelKind::End) {
                        if let Ok((dest, st4)) = new_temp(st3, e.type_) {
                            let inner = allowed.insert(else_l).insert(end_l);
                            lemma_jumps_placed_weaken(st4.instrs, allowed, inner);
                            let j = TACInstruction::JumpIfZero { label: else_l, operand: cv };
                            let st5 = emit(st4, j);
                            lemma_emit_jumps(st4, inner, j);
                            lemma_gen_expr_jumps(st5, *if_true, inner);
                            if let Ok((tv, st6)) = spec_gen_expr(st5, *if_true) {
                                let i1 = TACInstruction::StoreValueInstruction { dest, src: tv };
                                let i2 = TACInstruction::Jump { label: end_l };
                                let i3 = TACInstruction::Label { label: else_l };
                                let s1 = emit(st6, i1);
                                let s2 = emit(s1, i2);
                                let st7 = emit(s2, i3);
                                lemma_emit_jumps(st6, inner, i1);
                                lemma_emit_jumps(s1, inner, i2);
                                lemma_emit_jumps(s2, inner, i3);
                                lemma_last_places(st7.instrs, else_l);
                                lemma_gen_expr_extends(st7, *if_false);
                                lemma_gen_expr_jumps(st7, *if_false, inner);
                                if let Ok((fv, st8)) = spec_gen_expr(st7, *if_false) {
                                    lemma_extends_places(st7, st8, else_l);
                                    let i4 = TACInstruction::StoreValueInstruction { dest, src: fv };
                                    let i5 = TACInstruction::Label { label: end_l };
                                    let s4 = emit(st8, i4);
                                    let s5 = emit(s4, i5);
                                    lemma_emit_jumps(st8, inner, i4);
                                    lemma_emit_jumps(s4, inner, i5);
                                    lemma_places_push(st8.instrs, i4, else_l);
                                    lemma_places_push(s4.instrs, i5, else_l);
                                    lemma_last_places(s5.instrs, end_l);
                                    lemma_jumps_placed_define(s5.instrs, allowed.insert(else_l), end_l);
                                    lemma_jumps_placed_define(s5.instrs, allowed, else_l);
                                }
                            }
                        }
                    }
                }
            }
        },
        _ => {},
    }
}

proof fn lemma_gen_call_jumps(st: GenState, e: ASTNode, allowed: Set<Label>)
    requires
        jumps_placed(st.instrs, allowed),
        e.kind is FunctionCall,
    ensures
        expr_jumps_placed(st, spec_gen_expr(st, e), allowed),
    decreases e, 0nat,
{
    match e.kind {
        Expression::FunctionCall(f, args) => {
            lemma_gen_pushes_jumps(st, *args, 6, allowed);
            if let Ok(st1) = spec_gen_pushes(st, *args, 6) {
                lemma_gen_register_args_jumps(st1, *args, 0, allowed);
                if let Ok(st2) = spec_gen_register_args(st1, *args, 0) {
                    let n = args_len(*args);
                    let st3 = emit(st2, TACInstruction::FunctionCall(f));
                    lemma_emit_jumps(st2, allowed, TACInstruction::FunctionCall(f));
                    let st4 = if n > 6 {
                        emit(st3, TACInstruction::AdjustStack(((n - 6) * 8) as u64))
                    } else {
                        st3
                    };
                    if n > 6 {
                        lemma_emit_jumps(st3, allowed, TACInstruction::AdjustStack(((n - 6) * 8) as u64));
                    }
                    if let Ok((dest, st5)) = new_temp(st4, e.type_) {
                        lemma_emit_jumps(
                            st5,
                            allowed,
                            TACInstruction::StoreValueInstruction {
                                dest,
                                src: Operand::Register(Pseudoregister::Register(Reg::AX, e.type_)),
                            },
                        );
                    }
                }
            }
        },
        _ => {},
    }
}

/// The code of an expression places every label it jumps to (given that
/// the code before it jumps only to placed labels or to `allowed` ones).
#[verifier::rlimit(60)]
pub proof fn lemma_gen_expr_jumps(st: GenState, e: ASTNode, allowed: Set<Label>)
    requires
        jumps_placed(st.instrs, allowed),
    ensures
        expr_jumps_placed(st, spec_gen_expr(st, e), allowed),
    decreases e, 1nat,
{
    match e.kind {
        Expression::Constant(_) | Expression::Variable(_) => {},
        Expression::Unary(op, x) => {
            lemma_gen_expr_jumps(st, *x, allowed);
            if let Ok((src, st1)) = spec_gen_expr(st, *x) {
                if let Ok((dest, st2)) = new_temp(st1, e.type_) {
                    lemma_emit_jumps(st2, allowed, TACInstruction::UnaryOpInstruction { dest, op, operand: src });
                }
            }
        },
        Expression::Binary { op, left, right } => {
            if op == BinaryOperator::LogicalAnd || op == BinaryOperator::LogicalOr {
                lemma_gen_logical_jumps(st, e, allowed);
            } else {
                lemma_gen_expr_jumps(st, *left, allowed);
                if let Ok((lv, st1)) = spec_gen_expr(st, *left) {
                    lemma_gen_expr_jumps(st1, *right, allowed);
                    if let Ok((rv, st2)) = spec_gen_expr(st1, *right) {
                        if let Ok((dest, st3)) = new_temp(st2, e.type_) {
                            lemma_emit_jumps(
                                st3,
                                allowed,
                                TACInstruction::BinaryOpInstruction { dest, op, left: lv, right: rv },
                            );
                        }
                    }
                }
            }
        },
        Expression::Assignment { left, right } => {
            lemma_gen_expr_jumps(st, *left, allowed);
            if let Ok((dv, st1)) = spec_gen_expr(st, *left) {
                lemma_gen_expr_jumps(st1, *right, allowed);
                if let Ok((src, st2)) = spec_gen_expr(st1, *right) {
                    if let Operand::Register(dest) = dv {
                        lemma_emit_jumps(st2, allowed, TACInstruction::StoreValueInstruction { dest, src });
                    }
                }
            }
        },
        Expression::Condition { .. } => lemma_gen_condition_jumps(st, e, allowed),
        Expression::FunctionCall(..) => lemma_gen_call_jumps(st, e, allowed),
        Expression::Prefix(op, x) => {
            lemma_gen_expr_jumps(st, *x, allowed);
            if let Ok((v, st1)) = spec_gen_expr(st, *x) {
                if let Operand::Register(p) = v {
                    lemma_emit_jumps(
                        st1,
                        allowed,
                        TACInstruction::BinaryOpInstruction { dest: p, op: inc_dec_op(op), left: v, right: one() },
                    );
                }
            }
        },
        Expression::Postfix(op, x) => {
            lemma_gen_expr_jumps(st, *x, allowed);
            if let Ok((v, st1)) = spec_gen_expr(st, *x) {
                if let Operand::Register(p) = v {
                    if let Ok((tmp, st2)) = new_temp(st1, e.type_) {
                        let i1 = TACInstruction::StoreValueInstruction { dest: tmp, src: v };
                        lemma_emit_jumps(st2, allowed, i1);
                        lemma_emit_jumps(
                            emit(st2, i1),
                            allowed,
                            TACInstruction::BinaryOpInstruction { dest: p, op: inc_dec_op(op), left: v, right: one() },
                        );
                    }
                }
            }
        },
        Expression::Cast(t, x) => {
            lemma_gen_expr_jumps(st, *x, allowed);
            if let Ok((src, st1)) = spec_gen_expr(st, *x) {
                if let Ok((dest, st2)) = new_temp(st1, t) {
                    lemma_emit_jumps(st2, allowed, cast_instruction(x.type_, t, dest, src));
                }
            }
        },
    }
}

pub proof fn lemma_gen_pushes_jumps(st: GenState, a: Arguments, skip: nat, allowed: Set<Label>)
    requires
        jumps_placed(st.instrs, allowed),
    ensures
        step_jumps_placed(spec_gen_pushes(st, a, skip), allowed),
    decreases a,
{
    match a {
        Arguments::Nil => {},
        Arguments::Cons(x, rest) => {
            let next: nat = if skip > 0 {
                (skip - 1) as nat
            } else {
                0
            };
            lemma_gen_pushes_jumps(st, *rest, next, allowed);
            if let Ok(st1) = spec_gen_pushes(st, *rest, next) {
                if skip == 0 {
                    lemma_gen_expr_jumps(st1, *x, allowed);
                    if let Ok((v, st2)) = spec_gen_expr(st1, *x) {
                        lemma_emit_jumps(st2, allowed, TACInstruction::PushArgument(v));
                    }
                }
            }
        },
    }
}

pub proof fn lemma_gen_register_args_jumps(st: GenState, a: Arguments, i: int, allowed: Set<Label>)
    requires
        jumps_placed(st.instrs, allowed),
    ensures
        step_jumps_placed(spec_gen_register_args(st, a, i), allowed),
    decreases a,
{
    match a {
        Arguments::Nil => {},
        Arguments::Cons(x, rest) => if i < 6 {
            lemma_gen_expr_jumps(st, *x, allowed);
            if let Ok((v, st1)) = spec_gen_expr(st, *x) {
                let ins = TACInstruction::StoreValueInstruction {
                    dest: Pseudoregister::Register(arg_reg(i), x.type_),
                    src: v,
                };
                lemma_emit_jumps(st1, allowed, ins);
                lemma_gen_register_args_jumps(emit(st1, ins), *rest, i + 1, allowed);
            }
        },
    }
}


/// `allowed` holds the labels that `break` and `continue` of the loop
/// `innermost` jump to.
pub open spec fn loop_jumps_allowed(function: usize, innermost: (u64, bool), allowed: Set<Label>) -> bool {
    &&& allowed.contains(Label { function, number: innermost.0, kind: LabelKind::LoopEnd })
    &&& allowed.contains(
        Label {
            function,
            number: innermost.0,
            kind: if innermost.1 {
                LabelKind::LoopIncrement
            } else {
                LabelKind::LoopStart
            },
        },
    )
}

pub open spec fn stmt_jumps_ready(st: GenState, enclosing: Seq<(u64, bool)>, allowed: Set<Label>) -> bool {
    &&& jumps_placed(st.instrs, allowed)
    &&& enclosing.len() > 0 ==> loop_jumps_allowed(st.function, enclosing.last(), allowed)
}

proof fn lemma_gen_var_decl_jumps(st: GenState, d: VariableDeclaration, allowed: Set<Label>)
    requires
        jumps_placed(st.instrs, allowed),
    ensures
        step_jumps_placed(spec_gen_var_decl(st, d), allowed),
{
    if d.storage_class is None {
        if let Ok((p, st1)) = new_temp(st, d.var_type) {
            let st2 = GenState { vars: assoc_insert(st1.vars, d.name, p), ..st1 };
            if let Some(x) = d.init {
                lemma_gen_expr_jumps(st2, *x, allowed);
                if let Ok((v, st3)) = spec_gen_expr(st2, *x) {
                    lemma_emit_jumps(st3, allowed, TACInstruction::StoreValueInstruction { dest: p, src: v });
                }
            }
        }
    }
}

proof fn lemma_gen_opt_jumps(st: GenState, e: Option<Box<ASTNode>>, allowed: Set<Label>)
    requires
        jumps_placed(st.instrs, allowed),
    ensures
        spec_gen_opt(st, e) matches Ok((_, st2)) ==> jumps_placed(st2.instrs, allowed),
{
    if let Some(x) = e {
        lemma_gen_expr_jumps(st, *x, allowed);
    }
}

#[verifier::rlimit(60)]
proof fn lemma_gen_if_jumps(st: GenState, s: Statement, enclosing: Seq<(u64, bool)>, allowed: Set<Label>)
    requires
        stmt_jumps_ready(st, enclosing, allowed),
        jumps_to_innermost(s, enclosing),
        s is If,
    ensures
        step_jumps_placed(spec_gen_stmt(st, s), allowed),
    decreases s, 1nat,
{
    match s {
        Statement::If { condition, if_true, if_false } => {
            lemma_gen_expr_jumps(st, *condition, allowed);
            lemma_gen_expr_extends(st, *condition);
            if let Ok((cv, st1)) = spec_gen_expr(st, *condition) {
                match if_false {
                    None => {
                        if let Ok((end_l, st2)) = new_label(st1, LabelKind::End) {
                            let inner = allowed.insert(end_l);
                            lemma_jumps_placed_weaken(st2.instrs, allowed, inner);
                            let j = TACInstruction::JumpIfZero { label: end_l, operand: cv };
                            lemma_emit_jumps(st2, inner, j);
                            lemma_gen_stmt_jumps(emit(st2, j), *if_true, enclosing, inner);
                            if let Ok(st3) = spec_gen_stmt(emit(st2, j), *if_true) {
                                let l = TACInstruction::Label { label: end_l };
                                lemma_emit_jumps(st3, inner, l);
                                lemma_last_places(emit(st3, l).instrs, end_l);
                                lemma_jumps_placed_define(emit(st3, l).instrs, allowed, end_l);
                            }
                        }
                    },
                    Some(_) => lemma_gen_if_else_jumps(st1, cv, s, enclosing, allowed),
                }
            }
        },
        _ => {},
    }
}

#[verifier::rlimit(60)]
proof fn lemma_gen_if_else_jumps(
    st1: GenState,
    cv: Operand,
    s: Statement,
    enclosing: Seq<(u64, bool)>,
    allowed: Set<Label>,
)
    requires
        stmt_jumps_ready(st1, enclosing, allowed),
        jumps_to_innermost(s, enclosing),
        s matches Statement::If { if_false, .. } && if_false is Some,
    ensures
        ({
            let (if_true, f) = match s {
                Statement::If { if_true, if_false, .. } => (*if_true, *if_false->Some_0),
                _ => (Statement::Null, Statement::Null),
            };
            let r = match new_label(st1, LabelKind::Else) {
                Err(k) => Err(k),
                Ok((else_l, st2)) => match new_label(st2, LabelKind::End) {
                    Err(k) => Err(k),
                    Ok((end_l, st3)) => match spec_gen_stmt(
                        emit(st3, TACInstruction::JumpIfZero { label: else_l, operand: cv }),
                        if_true,
                    ) {
                        Err(k) => Err(k),
                        Ok(st4) => match spec_gen_stmt(
                            emit(
                                emit(st4, TACInstruction::Jump { label: end_l }),
                                TACInstruction::Label { label: else_l },
                            ),
                            f,
                        ) {
                            Err(k) => Err(k),
                            Ok(st5) => Ok(emit(st5, TACInstruction::Label { label: end_l })),
                        },
                    },
                },
            };
            step_jumps_placed(r, allowed)
        }),
    decreases s, 0nat,
{
    match s {
        Statement::If { if_true, if_false, .. } => {
            let f = *if_false->Some_0;
            if let Ok((else_l, st2)) = new_label(st1, LabelKind::Else) {
                if let Ok((end_l, st3)) = new_label(st2, LabelKind::End) {
                    let inner = allowed.insert(else_l).insert(end_l);
                    lemma_jumps_placed_weaken(st3.instrs, allowed, inner);
                    let j = TACInstruction::JumpIfZero { label: else_l, operand: cv };
                    let st3a = emit(st3, j);
                    lemma_emit_jumps(st3, inner, j);
                    lemma_gen_stmt_jumps(st3a, *if_true, enclosing, inner);
                    lemma_gen_stmt_extends(st3a, *if_true);
                    if let Ok(st4) = spec_gen_stmt(st3a, *if_true) {
                        let i1 = TACInstruction::Jump { label: end_l };
                        let i2 = TACInstruction::Label { label: else_l };
                        let s1 = emit(st4, i1);
                        let s2 = emit(s1, i2);
                        lemma_emit_jumps(st4, inner, i1);
                        lemma_emit_jumps(s1, inner, i2);
                        lemma_last_places(s2.instrs, else_l);
                        lemma_gen_stmt_jumps(s2, f, enclosing, inner);
                        lemma_gen_stmt_extends(s2, f);
                        if let Ok(st5) = spec_gen_stmt(s2, f) {
                            lemma_extends_places(s2, st5, else_l);
                            let i3 = TACInstruction::Label { label: end_l };
                            lemma_emit_jumps(st5, inner, i3);
                            lemma_places_push(st5.instrs, i3, else_l);
                            lemma_last_places(emit(st5, i3).instrs, end_l);
                            lemma_jumps_placed_define(emit(st5, i3).instrs, allowed.insert(else_l), end_l);
                            lemma_jumps_placed_define(emit(st5, i3).instrs, allowed, else_l);
                        }
                    }
                }
            }
        },
        _ => {},
    }
}

#[verifier::rlimit(60)]
proof fn lemma_gen_while_jumps(st: GenState, s: Statement, enclosing: Seq<(u64, bool)>, allowed: Set<Label>)
    requires
        stmt_jumps_ready(st, enclosing, allowed),
        jumps_to_innermost(s, enclosing),
        s is While,
    ensures
        step_jumps_placed(spec_gen_stmt(st, s), allowed),
    decreases s, 1nat,
{
    match s {
        Statement::While { condition, body, label, is_do_while } => {
            let start = loop_label(st, label, LabelKind::LoopStart);
            let end = loop_label(st, label, LabelKind::LoopEnd);
            let inner = allowed.insert(start).insert(end);
            let inner_loops = enclosing.push((label, false));
            lemma_jumps_placed_weaken(st.instrs, allowed, inner);
            let ls = TACInstruction::Label { label: start };
            let st1 = emit(st, ls);
            lemma_emit_jumps(st, inner, ls);
            lemma_last_places(st1.instrs, start);
            if !is_do_while {
                lemma_gen_expr_jumps(st1, *condition, inner);
                lemma_gen_expr_extends(st1, *condition);
                if let Ok((cv, st2)) = spec_gen_expr(st1, *condition) {
                    let j = TACInstruction::JumpIfZero { label: end, operand: cv };
                    let st2a = emit(st2, j);
                    lemma_emit_jumps(st2, inner, j);
                    lemma_gen_stmt_jumps(st2a, *body, inner_loops, inner);
                    lemma_gen_stmt_extends(st2a, *body);
                    if let Ok(st3) = spec_gen_stmt(st2a, *body) {
                        lemma_extends_places(st1, st2, start);
                        lemma_places_push(st2.instrs, j, start);
                        lemma_extends_places(st2a, st3, start);
                        let i1 = TACInstruction::Jump { label: start };
                        let i2 = TACInstruction::Label { label: end };
                        let s1 = emit(st3, i1);
                        let s2 = emit(s1, i2);
                        lemma_emit_jumps(st3, inner, i1);
                        lemma_emit_jumps(s1, inner, i2);
                        lemma_places_push(st3.instrs, i1, start);
                        lemma_places_push(s1.instrs, i2, start);
                        lemma_last_places(s2.instrs, end);
                        lemma_jumps_placed_define(s2.instrs, allowed.insert(start), end);
                        lemma_jumps_placed_define(s2.instrs, allowed, start);
                    }
                }
            } else {
                lemma_gen_stmt_jumps(st1, *body, inner_loops, inner);
                lemma_gen_stmt_extends(st1, *body);
                if let Ok(st2) = spec_gen_stmt(st1, *body) {
                    lemma_gen_expr_jumps(st2, *condition, inner);
                    lemma_gen_expr_extends(st2, *condition);
                    if let Ok((cv, st3)) = spec_gen_expr(st2, *condition) {
                        lemma_extends_places(st1, st2, start);
                        lemma_extends_places(st2, st3, start);
                        let i1 = TACInstruction::JumpIfZero { label: end, operand: cv };
                        let i2 = TACInstruction::Jump { label: start };
                        let i3 = TACInstruction::Label { label: end };
                        let s1 = emit(st3, i1);
                        let s2 = emit(s1, i2);
                        let s3 = emit(s2, i3);
                        lemma_emit_jumps(st3, inner, i1);
                        lemma_emit_jumps(s1, inner, i2);
                        lemma_emit_jumps(s2, inner, i3);
                        lemma_places_push(st3.instrs, i1, start);
                        lemma_places_push(s1.instrs, i2, start);
                        lemma_places_push(s2.instrs, i3, start);
                        lemma_last_places(s3.instrs, end);
                        lemma_jumps_placed_define(s3.instrs, allowed.insert(start), end);
                        lemma_jumps_placed_define(s3.instrs, allowed, start);
                    }
                }
            }
        },
        _ => {},
    }
}


/// The end of a `for` loop: its increment label, the increment, the jump
/// back to the start and the end label.
#[verifier::rlimit(40)]
proof fn lemma_gen_for_tail_jumps(
    st5: GenState,
    increment: Option<Box<ASTNode>>,
    start: Label,
    end: Label,
    incr: Label,
    allowed: Set<Label>,
)
    requires
        jumps_placed(st5.instrs, allowed.insert(start).insert(end).insert(incr)),
        places(st5.instrs, start),
    ensures
        step_jumps_placed(
            match spec_gen_opt(emit(st5, TACInstruction::Label { label: incr }), increment) {
                Err(k) => Err(k),
                Ok((_, st6)) => Ok(
                    emit(
                        emit(st6, TACInstruction::Jump { label: start }),
                        TACInstruction::Label { label: end },
                    ),
                ),
            },
            allowed,
        ),
{
    let inner = allowed.insert(start).insert(end).insert(incr);
    let li = TACInstruction::Label { label: incr };
    let st5a = emit(st5, li);
    lemma_emit_jumps(st5, inner, li);
    lemma_places_push(st5.instrs, li, start);
    lemma_last_places(st5a.instrs, incr);
    lemma_gen_opt_jumps(st5a, increment, inner);
    lemma_gen_opt_extends(st5a, increment);
    if let Ok((_, st6)) = spec_gen_opt(st5a, increment) {
        lemma_extends_places(st5a, st6, start);
        lemma_extends_places(st5a, st6, incr);
        let i1 = TACInstruction::Jump { label: start };
        let i2 = TACInstruction::Label { label: end };
        let s1 = emit(st6, i1);
        let s2 = emit(s1, i2);
        lemma_emit_jumps(st6, inner, i1);
        lemma_emit_jumps(s1, inner, i2);
        lemma_places_push(st6.instrs, i1, start);
        lemma_places_push(s1.instrs, i2, start);
        lemma_places_push(st6.instrs, i1, incr);
        lemma_places_push(s1.instrs, i2, incr);
        lemma_last_places(s2.instrs, end);
        lemma_jumps_placed_define(s2.instrs, allowed.insert(start).insert(end), incr);
        lemma_jumps_placed_define(s2.instrs, allowed.insert(start), end);
        lemma_jumps_placed_define(s2.instrs, allowed, start);
    }
}

#[verifier::rlimit(60)]
proof fn lemma_gen_for_jumps(st: GenState, s: Statement, enclosing: Seq<(u64, bool)>, allowed: Set<Label>)
    requires
        stmt_jumps_ready(st, enclosing, allowed),
        jumps_to_innermost(s, enclosing),
        s is For,
    ensures
        step_jumps_placed(spec_gen_stmt(st, s), allowed),
    decreases s, 1nat,
{
    match s {
        Statement::For { init, condition, increment, body, label } => {
            let start = loop_label(st, label, LabelKind::LoopStart);
            let end = loop_label(st, label, LabelKind::LoopEnd);
            let incr = loop_label(st, label, LabelKind::LoopIncrement);
            let inner = allowed.insert(start).insert(end).insert(incr);
            let inner_loops = enclosing.push((label, true));
            lemma_jumps_placed_weaken(st.instrs, allowed, inner);
            let init_res = match *init {
                ForInit::InitDecl(d) => spec_gen_var_decl(st, d),
                ForInit::InitExp(x) => match spec_gen_opt(st, x) {
                    Err(k) => Err(k),
                    Ok((_, st1)) => Ok(st1),
                },
            };
            match *init {
                ForInit::InitDecl(d) => {
                    lemma_gen_var_decl_jumps(st, d, inner);
                    lemma_gen_var_decl_extends(st, d);
                },
                ForInit::InitExp(x) => {
                    lemma_gen_opt_jumps(st, x, inner);
                    lemma_gen_opt_extends(st, x);
                },
            }
            if let Ok(st1) = init_res {
                let ls = TACInstruction::Label { label: start };
                let st2 = emit(st1, ls);
                lemma_emit_jumps(st1, inner, ls);
                lemma_last_places(st2.instrs, start);
                lemma_gen_opt_jumps(st2, condition, inner);
                lemma_gen_opt_extends(st2, condition);
                if let Ok((cv, st3)) = spec_gen_opt(st2, condition) {
                    lemma_extends_places(st2, st3, start);
                    let st4 = match cv {
                        Some(v) => emit(st3, TACInstruction::JumpIfZero { label: end, operand: v }),
                        None => st3,
                    };
                    if let Some(v) = cv {
                        let j = TACInstruction::JumpIfZero { label: end, operand: v };
                        lemma_emit_jumps(st3, inner, j);
                        lemma_places_push(st3.instrs, j, start);
                    }
                    lemma_gen_stmt_jumps(st4, *body, inner_loops, inner);
                    lemma_gen_stmt_extends(st4, *body);
                    if let Ok(st5) = spec_gen_stmt(st4, *body) {
                        lemma_extends_places(st4, st5, start);
                        lemma_gen_for_tail_jumps(st5, increment, start, end, incr, allowed);
                    }
                }
            }
        },
        _ => {},
    }
}

/// Generating a statement whose `break` and `continue` name their innermost
/// loop adds no jump to a label that is neither allowed nor placed.
#[verifier::rlimit(30)]
pub proof fn lemma_gen_stmt_jumps(st: GenState, s: Statement, enclosing: Seq<(u64, bool)>, allowed: Set<Label>)
    requires
        stmt_jumps_ready(st, enclosing, allowed),
        jumps_to_innermost(s, enclosing),
    ensures
        step_jumps_placed(spec_gen_stmt(st, s), allowed),
    decreases s, 2nat,
{
    match s {
        Statement::Return(e) => {
            lemma_gen_expr_jumps(st, *e, allowed);
            if let Ok((v, st1)) = spec_gen_expr(st, *e) {
                lemma_emit_jumps(st1, allowed, TACInstruction::ReturnInstruction { val: v });
            }
        },
        Statement::Expression(e) => lemma_gen_expr_jumps(st, *e, allowed),
        Statement::If { .. } => lemma_gen_if_jumps(st, s, enclosing, allowed),
        Statement::Compound(b) => lemma_gen_items_jumps(st, *b, enclosing, allowed),
        Statement::Break(l) => {
            lemma_emit_jumps(st, allowed, TACInstruction::Jump { label: loop_label(st, l, LabelKind::LoopEnd) });
        },
        Statement::Continue { label, is_for } => {
            let t = loop_label(
                st,
                label,
                if is_for {
                    LabelKind::LoopIncrement
                } else {
                    LabelKind::LoopStart
                },
            );
            lemma_emit_jumps(st, allowed, TACInstruction::Jump { label: t });
        },
        Statement::Null => {},
        Statement::While { .. } => lemma_gen_while_jumps(st, s, enclosing, allowed),
        Statement::For { .. } => lemma_gen_for_jumps(st, s, enclosing, allowed),
    }
}

pub proof fn lemma_gen_items_jumps(st: GenState, b: Block, enclosing: Seq<(u64, bool)>, allowed: Set<Label>)
    requires
        stmt_jumps_ready(st, enclosing, allowed),
        items_jump_to_innermost(b, enclosing),
    ensures
        step_jumps_placed(spec_gen_items(st, b), allowed),
    decreases b, 2nat,
{
    match b {
        Block::Nil => {},
        Block::Cons(item, rest) => {
            let r = match *item {
                BlockItem::D(Declaration::VariableDeclaration(d)) => spec_gen_var_decl(st, d),
                BlockItem::D(Declaration::FunctionDeclaration(_)) => Ok(st),
                BlockItem::S(s) => spec_gen_stmt(st, s),
            };
            match *item {
                BlockItem::D(Declaration::VariableDeclaration(d)) => {
                    lemma_gen_var_decl_jumps(st, d, allowed);
                    lemma_gen_var_decl_extends(st, d);
                },
                BlockItem::D(Declaration::FunctionDeclaration(_)) => {},
                BlockItem::S(s) => {
                    lemma_gen_stmt_jumps(st, s, enclosing, allowed);
                    lemma_gen_stmt_extends(st, s);
                },
            }
            if let Ok(st1) = r {
                lemma_gen_items_jumps(st1, *rest, enclosing, allowed);
            }
        },
    }
}

proof fn lemma_gen_params_jumps(st: GenState, names: NameList, types: TypeList, i: int, allowed: Set<Label>)
    requires
        jumps_placed(st.instrs, allowed),
    ensures
        step_jumps_placed(spec_gen_params(st, names, types, i), allowed),
    decreases names,
{
    match names {
        NameList::Nil => {},
        NameList::Cons(n, rest) => match types {
            TypeList::Nil => {},
            TypeList::Cons(t, ts) => if i < PARAMETER_LIMIT {
                if let Ok((p, st1)) = new_temp(st, t) {
                    let src = if i < 6 {
                        Operand::Register(Pseudoregister::Register(arg_reg(i), t))
                    } else {
                        Operand::MemoryReference((16 + (i - 6) * 8) as u64, Reg::BP, t)
                    };
                    let st2 = GenState { vars: assoc_insert(st1.vars, n, p), ..st1 };
                    let ins = TACInstruction::StoreValueInstruction { dest: p, src };
                    lemma_emit_jumps(st2, allowed, ins);
                    lemma_gen_params_jumps(emit(st2, ins), *rest, *ts, i + 1, allowed);
                }
            },
        },
    }
}

/// Every jump in the code generated for a function whose `break` and
/// `continue` statements name their innermost loop goes to a label that the
/// code itself places.
pub proof fn lemma_gen_function_jumps(st: GenState, f: FunctionDeclaration)
    requires
        jumps_placed(st.instrs, Set::empty()),
        f.body matches Some(b) ==> items_jump_to_innermost(*b, Seq::empty()),
    ensures
        step_jumps_placed(spec_gen_function(st, f), Set::empty()),
{
    if let Some(b) = f.body {
        let st1 = emit(
            emit(
                st,
                TACInstruction::FunctionInstruction {
                    name: f.name,
                    global: f.storage_class != Some(StorageClass::Static),
                },
            ),
            TACInstruction::AllocateStackInstruction,
        );
        lemma_emit_jumps(
            st,
            Set::empty(),
            TACInstruction::FunctionInstruction {
                name: f.name,
                global: f.storage_class != Some(StorageClass::Static),
            },
        );
        lemma_emit_jumps(
            emit(
                st,
                TACInstruction::FunctionInstruction {
                    name: f.name,
                    global: f.storage_class != Some(StorageClass::Static),
                },
            ),
            Set::empty(),
            TACInstruction::AllocateStackInstruction,
        );
        lemma_gen_params_jumps(st1, f.params, f.func_type.params, 0, Set::empty());
        if let Ok(st2) = spec_gen_params(st1, f.params, f.func_type.params, 0) {
            lemma_gen_items_jumps(st2, *b, Seq::empty(), Set::empty());
        }
    }
}

/// Adding the default return adds no jump.
pub proof fn lemma_default_return_jumps(instrs: Seq<TACInstruction>, allowed: Set<Label>)
    requires
        jumps_placed(instrs, allowed),
    ensures
        jumps_placed(spec_add_default_return(instrs), allowed),
{
    if !(instrs.len() == 0 || instrs.last() is ReturnInstruction) {
        lemma_jumps_placed_push(instrs, allowed, TACInstruction::ReturnInstruction { val: zero() });
    }
}

} // verus!
