use crate::ast::{
    type_size, ASTNode, Const, Arguments, Block, BlockItem, Declaration, Expression, ForInit, FunctionDeclaration,
    Name, NameList, Statement, TypeList, VariableDeclaration,
};
use crate::asm_ast::{const_bits, lemma_written_reads_back, loc, read, width, Loc};
use crate::errors::ErrorKind;
use crate::lexer::{BinaryOperator, StorageClass, Type, UnaryOperator};
use crate::symbols::{assoc_get, assoc_insert};
use crate::tac::{Label, LabelKind, Operand, Pseudoregister, Reg, TACInstruction};
use crate::tac_generator::{
    arg_reg, emit, inc_dec_op, loop_label, new_label, new_temp, spec_add_default_return, spec_gen_expr,
    spec_gen_function, spec_gen_items, spec_gen_opt, spec_gen_params, spec_gen_pushes,
    one, spec_gen_register_args, spec_gen_stmt, spec_gen_var_decl, GenRes, GenState, PARAMETER_LIMIT,
};
use vstd::prelude::*;

verus! {

// ---------------------------------------------------------------------------
// Code generation only appends.
// ---------------------------------------------------------------------------

/// `b` is a later state than `a` of the same function: the same instructions
/// followed by more, no stack slot or label given back.
pub open spec fn extends(a: GenState, b: GenState) -> bool {
    &&& a.instrs.len() <= b.instrs.len()
    &&& forall|i: int|
        #![trigger a.instrs[i]]
        #![trigger b.instrs[i]]
        0 <= i < a.instrs.len() ==> a.instrs[i] == b.instrs[i]
    &&& a.offset <= b.offset
    &&& a.labels <= b.labels
    &&& a.function == b.function
}

pub open spec fn expr_extends(st: GenState, r: GenRes<Operand>) -> bool {
    r matches Ok((_, st2)) ==> extends(st, st2)
}

pub open spec fn step_extends(st: GenState, r: Result<GenState, ErrorKind>) -> bool {
    r matches Ok(st2) ==> extends(st, st2)
}

/// Generating an expression only appends instructions and only takes new
/// stack slots and labels.
#[verifier::rlimit(30)]
pub proof fn lemma_gen_expr_extends(st: GenState, e: ASTNode)
    ensures
        expr_extends(st, spec_gen_expr(st, e)),
    decreases e,
{
    assert(extends(st, st));
    match e.kind {
        Expression::Constant(_) | Expression::Variable(_) => {},
        Expression::Unary(_, x) | Expression::Prefix(_, x) | Expression::Postfix(_, x)
        | Expression::Cast(_, x) => {
            lemma_gen_expr_extends(st, *x);
        },
        Expression::Binary { op, left, right } => {
            if op == BinaryOperator::LogicalAnd || op == BinaryOperator::LogicalOr {
                let and = op == BinaryOperator::LogicalAnd;
                if let Ok((short, st1)) = new_label(st, if and { LabelKind::False } else { LabelKind::True }) {
                    if let Ok((end, st2)) = new_label(st1, LabelKind::End) {
                        lemma_gen_expr_extends(st2, *left);
                        if let Ok((lv, st3)) = spec_gen_expr(st2, *left) {
                            let st4 = emit(
                                st3,
                                if and {
                                    TACInstruction::JumpIfZero { label: short, operand: lv }
                                } else {
                                    TACInstruction::JumpIfNotZero { label: short, operand: lv }
                                },
                            );
                            lemma_gen_expr_extends(st4, *right);
                        }
                    }
                }
            } else {
                lemma_gen_expr_extends(st, *left);
                if let Ok((_, st1)) = spec_gen_expr(st, *left) {
                    lemma_gen_expr_extends(st1, *right);
                }
            }
        },
        Expression::Assignment { left, right } => {
            lemma_gen_expr_extends(st, *left);
            if let Ok((_, st1)) = spec_gen_expr(st, *left) {
                lemma_gen_expr_extends(st1, *right);
            }
        },
        Expression::Condition { condition, if_true, if_false } => {
            lemma_gen_expr_extends(st, *condition);
            if let Ok((cv, st1)) = spec_gen_expr(st, *condition) {
                if let Ok((else_l, st2)) = new_label(st1, LabelKind::Else) {
                    if let Ok((end_l, st3)) = new_label(st2, LabelKind::End) {
                        if let Ok((dest, st4)) = new_temp(st3, e.type_) {
                            let st5 = emit(st4, TACInstruction::JumpIfZero { label: else_l, operand: cv });
                            lemma_gen_expr_extends(st5, *if_true);
                            if let Ok((tv, st6)) = spec_gen_expr(st5, *if_true) {
                                let st7 = emit(
                                    emit(
                                        emit(st6, TACInstruction::StoreValueInstruction { dest, src: tv }),
                                        TACInstruction::Jump { label: end_l },
                                    ),
                                    TACInstruction::Label { label: else_l },
                                );
                                lemma_gen_expr_extends(st7, *if_false);
                            }
                        }
                    }
                }
            }
        },
        Expression::FunctionCall(_, args) => {
            lemma_gen_pushes_extends(st, *args, 6);
            if let Ok(st1) = spec_gen_pushes(st, *args, 6) {
                lemma_gen_register_args_extends(st1, *args, 0);
            }
        },
    }
}

pub proof fn lemma_gen_pushes_extends(st: GenState, a: Arguments, skip: nat)
    ensures
        step_extends(st, spec_gen_pushes(st, a, skip)),
    decreases a,
{
    assert(extends(st, st));
    match a {
        Arguments::Nil => {},
        Arguments::Cons(x, rest) => {
            let next: nat = if skip > 0 {
                (skip - 1) as nat
            } else {
                0
            };
            lemma_gen_pushes_extends(st, *rest, next);
            if let Ok(st1) = spec_gen_pushes(st, *rest, next) {
                lemma_gen_expr_extends(st1, *x);
            }
        },
    }
}

pub proof fn lemma_gen_register_args_extends(st: GenState, a: Arguments, i: int)
    ensures
        step_extends(st, spec_gen_register_args(st, a, i)),
    decreases a,
{
    assert(extends(st, st));
    match a {
        Arguments::Nil => {},
        Arguments::Cons(x, rest) => if i < 6 {
            lemma_gen_expr_extends(st, *x);
            if let Ok((v, st1)) = spec_gen_expr(st, *x) {
                let st2 = emit(
                    st1,
                    TACInstruction::StoreValueInstruction {
                        dest: Pseudoregister::Register(arg_reg(i), x.type_),
                        src: v,
                    },
                );
                lemma_gen_register_args_extends(st2, *rest, i + 1);
            }
        },
    }
}


pub proof fn lemma_gen_opt_extends(st: GenState, e: Option<Box<ASTNode>>)
    ensures
        spec_gen_opt(st, e) matches Ok((_, st2)) ==> extends(st, st2),
{
    assert(extends(st, st));
    if let Some(x) = e {
        lemma_gen_expr_extends(st, *x);
    }
}

pub proof fn lemma_gen_var_decl_extends(st: GenState, d: VariableDeclaration)
    ensures
        step_extends(st, spec_gen_var_decl(st, d)),
{
    assert(extends(st, st));
    if d.storage_class is None {
        if let Ok((p, st1)) = new_temp(st, d.var_type) {
            let st2 = GenState { vars: assoc_insert(st1.vars, d.name, p), ..st1 };
            if let Some(x) = d.init {
                lemma_gen_expr_extends(st2, *x);
            }
        }
    }
}

#[verifier::rlimit(60)]
proof fn lemma_gen_if_extends(st: GenState, s: Statement)
    requires
        s is If,
    ensures
        step_extends(st, spec_gen_stmt(st, s)),
    decreases s, 1nat,
{
    match s {
        Statement::If { condition, if_true, if_false } => {
            lemma_gen_expr_extends(st, *condition);
            if let Ok((cv, st1)) = spec_gen_expr(st, *condition) {
                match if_false {
                    None => {
                        if let Ok((end_l, st2)) = new_label(st1, LabelKind::End) {
                            lemma_gen_stmt_extends(
                                emit(st2, TACInstruction::JumpIfZero { label: end_l, operand: cv }),
                                *if_true,
                            );
                        }
                    },
                    Some(_) => lemma_gen_if_else_extends(st1, cv, s),
                }
            }
        },
        _ => {},
    }
}

/// The part of an `if` with an `else` after its condition.
#[verifier::rlimit(60)]
proof fn lemma_gen_if_else_extends(st1: GenState, cv: Operand, s: Statement)
    requires
        s matches Statement::If { if_false, .. } && if_false is Some,
    ensures
        ({
            let (if_true, f) = match s {
                Statement::If { if_true, if_false, .. } => (*if_true, *if_false->Some_0),
                _ => (Statement::Null, Statement::Null),
            };
            let r = match new_label(st1, LabelKind::Else) {
                Err(k) => Err(k),
                Ok((else_l, st2)) => match new_label(st2, LabelKind::End) {
                    Err(k) => Err(k),
                    Ok((end_l, st3)) => match spec_gen_stmt(
                        emit(st3, TACInstruction::JumpIfZero { label: else_l, operand: cv }),
                        if_true,
                    ) {
                        Err(k) => Err(k),
                        Ok(st4) => match spec_gen_stmt(
                            emit(
                                emit(st4, TACInstruction::Jump { label: end_l }),
                                TACInstruction::Label { label: else_l },
                            ),
                            f,
                        ) {
                            Err(k) => Err(k),
                            Ok(st5) => Ok(emit(st5, TACInstruction::Label { label: end_l })),
                        },
                    },
                },
            };
            step_extends(st1, r)
        }),
    decreases s, 0nat,
{
    match s {
        Statement::If { if_true, if_false, .. } => {
            let f = *if_false->Some_0;
            if let Ok((else_l, st2)) = new_label(st1, LabelKind::Else) {
                if let Ok((end_l, st3)) = new_label(st2, LabelKind::End) {
                    let st3a = emit(st3, TACInstruction::JumpIfZero { label: else_l, operand: cv });
                    lemma_gen_stmt_extends(st3a, *if_true);
                    if let Ok(st4) = spec_gen_stmt(st3a, *if_true) {
                        lemma_gen_stmt_extends(
                            emit(
                                emit(st4, TACInstruction::Jump { label: end_l }),
                                TACInstruction::Label { label: else_l },
                            ),
                            f,
                        );
                    }
                }
            }
        },
        _ => {},
    }
}

#[verifier::rlimit(40)]
proof fn lemma_gen_while_extends(st: GenState, s: Statement)
    requires
        s is While,
    ensures
        step_extends(st, spec_gen_stmt(st, s)),
    decreases s, 1nat,
{
    assert(extends(st, st));
    match s {
        Statement::While { condition, body, label, is_do_while } => {
            let start = loop_label(st, label, LabelKind::LoopStart);
            let end = loop_label(st, label, LabelKind::LoopEnd);
            let st1 = emit(st, TACInstruction::Label { label: start });
            if !is_do_while {
                lemma_gen_expr_extends(st1, *condition);
                if let Ok((cv, st2)) = spec_gen_expr(st1, *condition) {
                    lemma_gen_stmt_extends(emit(st2, TACInstruction::JumpIfZero { label: end, operand: cv }), *body);
                }
            } else {
                lemma_gen_stmt_extends(st1, *body);
                if let Ok(st2) = spec_gen_stmt(st1, *body) {
                    lemma_gen_expr_extends(st2, *condition);
                }
            }
        },
        _ => {},
    }
}

#[verifier::rlimit(40)]
proof fn lemma_gen_for_extends(st: GenState, s: Statement)
    requires
        s is For,
    ensures
        step_extends(st, spec_gen_stmt(st, s)),
    decreases s, 1nat,
{
    assert(extends(st, st));
    match s {
        Statement::For { init, condition, increment, body, label } => {
            let start = loop_label(st, label, LabelKind::LoopStart);
            let end = loop_label(st, label, LabelKind::LoopEnd);
            let incr = loop_label(st, label, LabelKind::LoopIncrement);
            let init_res = match *init {
                ForInit::InitDecl(d) => spec_gen_var_decl(st, d),
                ForInit::InitExp(x) => match spec_gen_opt(st, x) {
                    Err(k) => Err(k),
                    Ok((_, st1)) => Ok(st1),
                },
            };
            match *init {
                ForInit::InitDecl(d) => lemma_gen_var_decl_extends(st, d),
                ForInit::InitExp(x) => lemma_gen_opt_extends(st, x),
            }
            if let Ok(st1) = init_res {
                let st2 = emit(st1, TACInstruction::Label { label: start });
                lemma_gen_opt_extends(st2, condition);
                if let Ok((cv, st3)) = spec_gen_opt(st2, condition) {
                    let st4 = match cv {
                        Some(v) => emit(st3, TACInstruction::JumpIfZero { label: end, operand: v }),
                        None => st3,
                    };
                    lemma_gen_stmt_extends(st4, *body);
                    if let Ok(st5) = spec_gen_stmt(st4, *body) {
                        lemma_gen_opt_extends(emit(st5, TACInstruction::Label { label: incr }), increment);
                    }
                }
            }
        },
        _ => {},
    }
}

/// Generating a statement only appends instructions and only takes new
/// stack slots and labels.
#[verifier::rlimit(30)]
pub proof fn lemma_gen_stmt_extends(st: GenState, s: Statement)
    ensures
        step_extends(st, spec_gen_stmt(st, s)),
    decreases s, 2nat,
{
    assert(extends(st, st));
    match s {
        Statement::Return(e) | Statement::Expression(e) => {
            lemma_gen_expr_extends(st, *e);
        },
        Statement::If { .. } => lemma_gen_if_extends(st, s),
        Statement::Compound(b) => {
            lemma_gen_items_extends(st, *b);
        },
        Statement::Break(_) | Statement::Continue { .. } | Statement::Null => {},
        Statement::While { .. } => lemma_gen_while_extends(st, s),
        Statement::For { .. } => lemma_gen_for_extends(st, s),
    }
}

pub proof fn lemma_gen_items_extends(st: GenState, b: Block)
    ensures
        step_extends(st, spec_gen_items(st, b)),
    decreases b, 2nat,
{
    assert(extends(st, st));
    match b {
        Block::Nil => {},
        Block::Cons(item, rest) => {
            let r = match *item {
                BlockItem::D(Declaration::VariableDeclaration(d)) => spec_gen_var_decl(st, d),
                BlockItem::D(Declaration::FunctionDeclaration(_)) => Ok(st),
                BlockItem::S(s) => spec_gen_stmt(st, s),
            };
            match *item {
                BlockItem::D(Declaration::VariableDeclaration(d)) => lemma_gen_var_decl_extends(st, d),
                BlockItem::D(Declaration::FunctionDeclaration(_)) => {},
                BlockItem::S(s) => lemma_gen_stmt_extends(st, s),
            }
            if let Ok(st1) = r {
                lemma_gen_items_extends(st1, *rest);
            }
        },
    }
}


pub proof fn lemma_gen_params_extends(st: GenState, names: NameList, types: TypeList, i: int)
    ensures
        step_extends(st, spec_gen_params(st, names, types, i)),
    decreases names,
{
    assert(extends(st, st));
    match names {
        NameList::Nil => {},
        NameList::Cons(n, rest) => match types {
            TypeList::Nil => {},
            TypeList::Cons(t, ts) => if i < PARAMETER_LIMIT {
                if let Ok((p, st1)) = new_temp(st, t) {
                    let src = if i < 6 {
                        Operand::Register(Pseudoregister::Register(arg_reg(i), t))
                    } else {
                        Operand::MemoryReference((16 + (i - 6) * 8) as u64, Reg::BP, t)
                    };
                    let st2 = GenState { vars: assoc_insert(st1.vars, n, p), ..st1 };
                    lemma_gen_params_extends(
                        emit(st2, TACInstruction::StoreValueInstruction { dest: p, src }),
                        *rest,
                        *ts,
                        i + 1,
                    );
                }
            },
        },
    }
}

/// The code of a function definition begins with the function's entry and
/// the allocation of its stack frame, followed by the code of its
/// parameters and body.
#[verifier::rlimit(30)]
pub proof fn lemma_function_code_starts_with_entry(st: GenState, f: FunctionDeclaration)
    requires
        f.body is Some,
        spec_gen_function(st, f) is Ok,
    ensures
        ({
            let g = spec_gen_function(st, f)->Ok_0;
            &&& extends(st, g)
            &&& g.instrs.len() >= st.instrs.len() + 2
            &&& g.instrs[st.instrs.len() as int] == TACInstruction::FunctionInstruction {
                name: f.name,
                global: f.storage_class != Some(StorageClass::Static),
            }
            &&& g.instrs[st.instrs.len() + 1int] == TACInstruction::AllocateStackInstruction
        }),
{
    let b = f.body->Some_0;
    let st1 = emit(
        emit(
            st,
            TACInstruction::FunctionInstruction {
                name: f.name,
                global: f.storage_class != Some(StorageClass::Static),
            },
        ),
        TACInstruction::AllocateStackInstruction,
    );
    lemma_gen_params_extends(st1, f.params, f.func_type.params, 0);
    let st2 = spec_gen_params(st1, f.params, f.func_type.params, 0)->Ok_0;
    lemma_gen_items_extends(st2, *b);
    let g = spec_gen_items(st2, *b)->Ok_0;
    assert(st1.instrs[st.instrs.len() as int] == g.instrs[st.instrs.len() as int]);
    assert(st1.instrs[st.instrs.len() + 1int] == g.instrs[st.instrs.len() + 1int]);
}

/// The code of a function ends in a return once the default return is added.
pub proof fn lemma_default_return_ends_in_return(instrs: Seq<TACInstruction>)
    requires
        instrs.len() > 0,
    ensures
        spec_add_default_return(instrs).len() > 0,
        spec_add_default_return(instrs).last() is ReturnInstruction,
        spec_add_default_return(spec_add_default_return(instrs)) == spec_add_default_return(instrs),
{
}


/// A temporary that a generation step takes lies, with its eight bytes,
/// below the frame offset of every later state of the generation: its slot
/// is the offset before the step, and the offset only grows.
pub proof fn lemma_temp_below_frame(st: GenState, t: Type, fin: GenState)
    requires
        0 <= st.offset,
        new_temp(st, t) matches Ok((_, st1)) && extends(st1, fin),
    ensures
        new_temp(st, t) matches Ok((Pseudoregister::Pseudoregister(o, _), _)) && o + 8 <= fin.offset,
{
}


// ---------------------------------------------------------------------------
// What a postfix increment or decrement yields.
// ---------------------------------------------------------------------------

/// The effect of a copy, an addition or a subtraction of the three-address
/// code on the places of the machine (each holding a 64-bit value); the
/// other instructions are outside this model.
pub open spec fn tac_effect(s: spec_fn(Loc) -> int, i: TACInstruction) -> Option<spec_fn(Loc) -> int> {
    match i {
        TACInstruction::StoreValueInstruction { dest, src } => Some(
            crate::asm_ast::write(s, loc(dest), dest.spec_size(), read(s, src, dest.spec_size())),
        ),
        TACInstruction::BinaryOpInstruction { dest, op, left, right } => {
            let size = dest.spec_size();
            if op == BinaryOperator::Addition {
                Some(crate::asm_ast::write(s, loc(dest), size, read(s, left, size) + read(s, right, size)))
            } else if op == BinaryOperator::Subtraction {
                Some(crate::asm_ast::write(s, loc(dest), size, read(s, left, size) - read(s, right, size)))
            } else {
                None
            }
        },
        _ => None,
    }
}

/// Running three-address instructions in order, as long as each is in the
/// model.
pub open spec fn tac_run(s: spec_fn(Loc) -> int, code: Seq<TACInstruction>) -> Option<spec_fn(Loc) -> int>
    decreases code.len(),
{
    if code.len() == 0 {
        Some(s)
    } else {
        match tac_effect(s, code[0]) {
            None => None,
            Some(s1) => tac_run(s1, code.drop_first()),
        }
    }
}

proof fn lemma_tac_run_two(s: spec_fn(Loc) -> int, a: TACInstruction, b: TACInstruction)
    requires
        tac_effect(s, a) is Some,
        tac_effect(tac_effect(s, a)->Some_0, b) is Some,
    ensures
        tac_run(s, seq![a, b]) == tac_effect(tac_effect(s, a)->Some_0, b),
{
    let c = seq![a, b];
    assert(c[0] == a);
    assert(c.drop_first() =~= seq![b]);
    assert(seq![b][0] == b);
    assert(seq![b].drop_first() =~= Seq::<TACInstruction>::empty());
    let s1 = tac_effect(s, a)->Some_0;
    let s2 = tac_effect(s1, b)->Some_0;
    assert(tac_run(s, c) == tac_run(s1, c.drop_first()));
    assert(tac_run(s1, seq![b]) == tac_run(s2, seq![b].drop_first()));
    assert(tac_run(s2, Seq::<TACInstruction>::empty()) == Some(s2));
}

/// The place a variable is read from by the generated code.
pub open spec fn variable_place(st: GenState, n: Name, t: Type) -> Pseudoregister {
    match assoc_get(st.vars, n) {
        Some(p) => p,
        None => Pseudoregister::Data(n, t),
    }
}

/// A postfix increment or decrement of a variable yields the value the
/// variable had before, in a temporary of its own, and leaves the variable
/// one more (for `++`) or one less (for `--`) than that value, at its width.
pub proof fn lemma_postfix_yields_old_value(
    st: GenState,
    op: UnaryOperator,
    n: Name,
    x: ASTNode,
    t: Type,
    s: spec_fn(Loc) -> int,
)
    requires
        x.kind == Expression::Variable(n),
        0 <= st.offset,
        type_size(t) == 4 || type_size(t) == 8,
        variable_place(st, n, x.type_).spec_size() == type_size(t),
        variable_place(st, n, x.type_) matches Pseudoregister::Pseudoregister(o, _) ==> o < st.offset,
    ensures
        ({
            let e = ASTNode { kind: Expression::Postfix(op, Box::new(x)), type_: t };
            let p = variable_place(st, n, x.type_);
            let size = type_size(t);
            let old_value = read(s, Operand::Register(p), size);
            spec_gen_expr(st, e) matches Ok((res, st2)) ==> (tac_run(
                s,
                st2.instrs.subrange(st.instrs.len() as int, st2.instrs.len() as int),
            ) matches Some(s2) && read(s2, res, size) == old_value && read(s2, Operand::Register(p), size)
                == (old_value + if op == UnaryOperator::Increment {
                1int
            } else {
                -1int
            }) % width(size))
        }),
{
    let e = ASTNode { kind: Expression::Postfix(op, Box::new(x)), type_: t };
    let p = variable_place(st, n, x.type_);
    let size = type_size(t);
    let w = width(size);
    if let Ok((tmp, st2)) = new_temp(st, t) {
        let v = Operand::Register(p);
        let i1 = TACInstruction::StoreValueInstruction { dest: tmp, src: v };
        let i2 = TACInstruction::BinaryOpInstruction { dest: p, op: inc_dec_op(op), left: v, right: one() };
        let fin = emit(emit(st2, i1), i2);
        assert(fin.instrs.subrange(st.instrs.len() as int, fin.instrs.len() as int) =~= seq![i1, i2]);
        let old_value = read(s, v, size);
        let s1 = crate::asm_ast::write(s, loc(tmp), size, old_value);
        assert(loc(tmp) != loc(p));
        lemma_written_reads_back(s, tmp, size, old_value);
        assert(read(s1, v, size) == old_value);
        let d = if op == UnaryOperator::Increment {
            1int
        } else {
            -1int
        };
        assert(const_bits(Const::ConstInt(1)) == 1);
        assert(1int % w == 1);
        assert(read(s1, one(), size) == 1);
        let s2 = crate::asm_ast::write(s1, loc(p), size, old_value + d);
        assert(spec_gen_expr(st, x) == Ok::<(Operand, GenState), ErrorKind>((v, st)));
        assert(spec_gen_expr(st, e) == Ok::<(Operand, GenState), ErrorKind>((Operand::Register(tmp), fin)));
        assert(tac_effect(s, i1) == Some(s1));
        assert(tac_effect(s1, i2) == Some(s2));
        lemma_run_two_postfix(s, i1, i2, s1, s2, d, size, old_value);
        lemma_written_reads_back(s1, p, size, old_value + d);
        assert(s2(loc(tmp)) == s1(loc(tmp)));
        assert(read(s2, Operand::Register(tmp), size) == read(s1, Operand::Register(tmp), size));
        assert(old_value % w == old_value);
    }
}

proof fn lemma_run_two_postfix(
    s: spec_fn(Loc) -> int,
    i1: TACInstruction,
    i2: TACInstruction,
    s1: spec_fn(Loc) -> int,
    s2: spec_fn(Loc) -> int,
    d: int,
    size: i32,
    old_value: int,
)
    requires
        tac_effect(s, i1) == Some(s1),
        tac_effect(s1, i2) == Some(s2),
    ensures
        tac_run(s, seq![i1, i2]) == Some(s2),
{
    lemma_tac_run_two(s, i1, i2);
}


proof fn lemma_tac_run_one(s: spec_fn(Loc) -> int, a: TACInstruction, s1: spec_fn(Loc) -> int)
    requires
        tac_effect(s, a) == Some(s1),
    ensures
        tac_run(s, seq![a]) == Some(s1),
{
    let c = seq![a];
    assert(c[0] == a);
    assert(c.drop_first() =~= Seq::<TACInstruction>::empty());
    assert(tac_run(s, c) == tac_run(s1, c.drop_first()));
    assert(tac_run(s1, Seq::<TACInstruction>::empty()) == Some(s1));
}

/// A prefix increment or decrement of a variable leaves the variable one
/// more (for `++`) or one less (for `--`) than it was, at its width, and
/// yields that new value.
pub proof fn lemma_prefix_yields_new_value(
    st: GenState,
    op: UnaryOperator,
    n: Name,
    x: ASTNode,
    t: Type,
    s: spec_fn(Loc) -> int,
)
    requires
        x.kind == Expression::Variable(n),
        type_size(t) == 4 || type_size(t) == 8,
        variable_place(st, n, x.type_).spec_size() == type_size(t),
    ensures
        ({
            let e = ASTNode { kind: Expression::Prefix(op, Box::new(x)), type_: t };
            let p = variable_place(st, n, x.type_);
            let size = type_size(t);
            let new_value = (read(s, Operand::Register(p), size) + if op == UnaryOperator::Increment {
                1int
            } else {
                -1int
            }) % width(size);
            spec_gen_expr(st, e) matches Ok((res, st2)) ==> (tac_run(
                s,
                st2.instrs.subrange(st.instrs.len() as int, st2.instrs.len() as int),
            ) matches Some(s2) && read(s2, res, size) == new_value && read(s2, Operand::Register(p), size)
                == new_value)
        }),
{
    let e = ASTNode { kind: Expression::Prefix(op, Box::new(x)), type_: t };
    let p = variable_place(st, n, x.type_);
    let size = type_size(t);
    let w = width(size);
    let v = Operand::Register(p);
    let i1 = TACInstruction::BinaryOpInstruction { dest: p, op: inc_dec_op(op), left: v, right: one() };
    let fin = emit(st, i1);
    assert(spec_gen_expr(st, x) == Ok::<(Operand, GenState), ErrorKind>((v, st)));
    assert(spec_gen_expr(st, e) == Ok::<(Operand, GenState), ErrorKind>((v, fin)));
    assert(fin.instrs.subrange(st.instrs.len() as int, fin.instrs.len() as int) =~= seq![i1]);
    let old_value = read(s, v, size);
    let d = if op == UnaryOperator::Increment {
        1int
    } else {
        -1int
    };
    assert(const_bits(Const::ConstInt(1)) == 1);
    assert(1int % w == 1);
    assert(read(s, one(), size) == 1);
    let s1 = crate::asm_ast::write(s, loc(p), size, old_value + d);
    assert(tac_effect(s, i1) == Some(s1));
    lemma_tac_run_one(s, i1, s1);
    lemma_written_reads_back(s, p, size, old_value + d);
}

} // verus!
