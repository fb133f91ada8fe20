use crate::ast::{
    is_unsigned_type, size_of_type, type_size, ASTNode, Arguments, Block, BlockItem, Const, Declaration,
    Expression, ForInit, FunctionDeclaration, Name, NameList, Statement, TypeList,
    VariableDeclaration,
};
use crate::errors::{step_outcome, CompilerError, ErrorKind};
use crate::lexer::{BinaryOperator, StorageClass, Type, UnaryOperator};
use crate::resolve::args_len;
use crate::symbols::{assoc_find, assoc_get, assoc_insert, assoc_put};
use crate::tac::{Label, LabelKind, Operand, Pseudoregister, Reg, TACInstruction};
use vstd::prelude::*;

verus! {

/// The largest stack frame a function may use, in bytes.
pub const FRAME_LIMIT: u64 = 0x7fff_0000;

/// The largest parameter position a function may have.
pub const PARAMETER_LIMIT: u64 = 0x1000_0000;

/// The model of the code generator's state: the instructions emitted so far,
/// the bytes of stack in use, where each local lives, the next label number
/// and the function being generated.
pub struct GenState {
    pub instrs: Seq<TACInstruction>,
    pub offset: int,
    pub vars: Seq<(Name, Pseudoregister)>,
    pub labels: int,
    pub function: usize,
}

pub type GenRes<T> = Result<(T, GenState), ErrorKind>;

// ---------------------------------------------------------------------------
// The model of three-address code generation.
// ---------------------------------------------------------------------------

pub open spec fn emit(st: GenState, i: TACInstruction) -> GenState {
    GenState { instrs: st.instrs.push(i), ..st }
}

/// A fresh stack slot of eight bytes for a value of type `t`.
pub open spec fn new_temp(st: GenState, t: Type) -> GenRes<Pseudoregister> {
    if st.offset + 8 > FRAME_LIMIT {
        Err(ErrorKind::Semantic)
    } else {
        Ok((Pseudoregister::Pseudoregister(st.offset as u64, t), GenState { offset: st.offset + 8, ..st }))
    }
}

/// A fresh numbered label of the given kind.
pub open spec fn new_label(st: GenState, kind: LabelKind) -> GenRes<Label> {
    if st.labels >= u64::MAX {
        Err(ErrorKind::Semantic)
    } else {
        Ok((Label { function: st.function, number: st.labels as u64, kind }, GenState { labels: st.labels + 1, ..st }))
    }
}

pub open spec fn loop_label(st: GenState, n: u64, kind: LabelKind) -> Label {
    Label { function: st.function, number: n, kind }
}

/// The register that carries argument `i` (of the first six).
pub open spec fn arg_reg(i: int) -> Reg {
    if i == 0 {
        Reg::DI
    } else if i == 1 {
        Reg::SI
    } else if i == 2 {
        Reg::DX
    } else if i == 3 {
        Reg::CX
    } else if i == 4 {
        Reg::R8
    } else {
        Reg::R9
    }
}

pub open spec fn inc_dec_op(op: UnaryOperator) -> BinaryOperator {
    if op == UnaryOperator::Increment {
        BinaryOperator::Addition
    } else {
        BinaryOperator::Subtraction
    }
}

pub open spec fn one() -> Operand {
    Operand::Immediate(Const::ConstInt(1))
}

pub open spec fn zero() -> Operand {
    Operand::Immediate(Const::ConstInt(0))
}

/// The instruction that converts `src` of type `from` into `dest` of type `to`.
pub open spec fn cast_instruction(from: Type, to: Type, dest: Pseudoregister, src: Operand) -> TACInstruction {
    if type_size(to) == type_size(from) {
        TACInstruction::StoreValueInstruction { dest, src }
    } else if type_size(to) > type_size(from) {
        if is_unsigned_type(from) {
            TACInstruction::ZeroExtend { dest, src }
        } else {
            TACInstruction::SignExtend { dest, src }
        }
    } else {
        TACInstruction::Truncate { dest, src }
    }
}

pub open spec fn spec_gen_expr(st: GenState, e: ASTNode) -> GenRes<Operand>
    decreases e,
{
    match e.kind {
        Expression::Constant(c) => Ok((Operand::Immediate(c), st)),
        Expression::Variable(n) => Ok(
            (
                Operand::Register(
                    match assoc_get(st.vars, n) {
                        Some(p) => p,
                        None => Pseudoregister::Data(n, e.type_),
                    },
                ),
                st,
            ),
        ),
        Expression::Unary(op, x) => match spec_gen_expr(st, *x) {
            Err(k) => Err(k),
            Ok((src, st1)) => if op == UnaryOperator::UnaryAdd {
                Ok((src, st1))
            } else {
                match new_temp(st1, e.type_) {
                    Err(k) => Err(k),
                    Ok((dest, st2)) => Ok(
                        (
                            Operand::Register(dest),
                            emit(st2, TACInstruction::UnaryOpInstruction { dest, op, operand: src }),
                        ),
                    ),
                }
            },
        },
        Expression::Binary { op, left, right } => if op == BinaryOperator::LogicalAnd || op
            == BinaryOperator::LogicalOr {
            let and = op == BinaryOperator::LogicalAnd;
            match new_label(st, if and { LabelKind::False } else { LabelKind::True }) {
                Err(k) => Err(k),
                Ok((short, st1)) => match new_label(st1, LabelKind::End) {
                    Err(k) => Err(k),
                    Ok((end, st2)) => match spec_gen_expr(st2, *left) {
                        Err(k) => Err(k),
                        Ok((lv, st3)) => {
                            let st4 = emit(
                                st3,
                                if and {
                                    TACInstruction::JumpIfZero { label: short, operand: lv }
                                } else {
                                    TACInstruction::JumpIfNotZero { label: short, operand: lv }
                                },
                            );
                            match spec_gen_expr(st4, *right) {
                                Err(k) => Err(k),
                                Ok((rv, st5)) => {
                                    let st6 = emit(
                                        st5,
                                        if and {
                                            TACInstruction::JumpIfZero { label: short, operand: rv }
                                        } else {
                                            TACInstruction::JumpIfNotZero { label: short, operand: rv }
                                        },
                                    );
                                    match new_temp(st6, Type::Int) {
                                        Err(k) => Err(k),
                                        Ok((dest, st7)) => {
                                            let (fall, taken) = if and {
                                                (one(), zero())
                                            } else {
                                                (zero(), one())
                                            };
                                            let st8 = emit(
                                                emit(
                                                    emit(
                                                        emit(
                                                            emit(
                                                                st7,
                                                                TACInstruction::StoreValueInstruction { dest, src: fall },
                                                            ),
                                                            TACInstruction::Jump { label: end },
                                                        ),
                                                        TACInstruction::Label { label: short },
                                                    ),
                                                    TACInstruction::StoreValueInstruction { dest, src: taken },
                                                ),
                                                TACInstruction::Label { label: end },
                                            );
                                            Ok((Operand::Register(dest), st8))
                                        },
                                    }
                                },
                            }
                        },
                    },
                },
            }
        } else {
            match spec_gen_expr(st, *left) {
                Err(k) => Err(k),
                Ok((lv, st1)) => match spec_gen_expr(st1, *right) {
                    Err(k) => Err(k),
                    Ok((rv, st2)) => match new_temp(st2, e.type_) {
                        Err(k) => Err(k),
                        Ok((dest, st3)) => Ok(
                            (
                                Operand::Register(dest),
                                emit(
                                    st3,
                                    TACInstruction::BinaryOpInstruction { dest, op, left: lv, right: rv },
                                ),
                            ),
                        ),
                    },
                },
            }
        },
        Expression::Assignment { left, right } => match spec_gen_expr(st, *left) {
            Err(k) => Err(k),
            Ok((dv, st1)) => match spec_gen_expr(st1, *right) {
                Err(k) => Err(k),
                Ok((src, st2)) => match dv {
                    Operand::Register(dest) => Ok(
                        (src, emit(st2, TACInstruction::StoreValueInstruction { dest, src })),
                    ),
                    _ => Err(ErrorKind::Semantic),
                },
            },
        },
        Expression::Condition { condition, if_true, if_false } => match spec_gen_expr(st, *condition) {
            Err(k) => Err(k),
            Ok((cv, st1)) => match new_label(st1, LabelKind::Else) {
                Err(k) => Err(k),
                Ok((else_l, st2)) => match new_label(st2, LabelKind::End) {
                    Err(k) => Err(k),
                    Ok((end_l, st3)) => match new_temp(st3, e.type_) {
                        Err(k) => Err(k),
                        Ok((dest, st4)) => {
                            let st5 = emit(st4, TACInstruction::JumpIfZero { label: else_l, operand: cv });
                            match spec_gen_expr(st5, *if_true) {
                                Err(k) => Err(k),
                                Ok((tv, st6)) => {
                                    let st7 = emit(
                                        emit(
                                            emit(st6, TACInstruction::StoreValueInstruction { dest, src: tv }),
                                            TACInstruction::Jump { label: end_l },
                                        ),
                                        TACInstruction::Label { label: else_l },
                                    );
                                    match spec_gen_expr(st7, *if_false) {
                                        Err(k) => Err(k),
                                        Ok((fv, st8)) => Ok(
                                            (
                                                Operand::Register(dest),
                                                emit(
                                                    emit(st8, TACInstruction::StoreValueInstruction { dest, src: fv }),
                                                    TACInstruction::Label { label: end_l },
                                                ),
                                            ),
                                        ),
                                    }
                                },
                            }
                        },
                    },
                },
            },
        },
        Expression::FunctionCall(f, args) => match spec_gen_pushes(st, *args, 6) {
            Err(k) => Err(k),
            Ok(st1) => match spec_gen_register_args(st1, *args, 0) {
                Err(k) => Err(k),
                Ok(st2) => {
                    let n = args_len(*args);
                    let st3 = emit(st2, TACInstruction::FunctionCall(f));
                    if n > 6 && (n - 6) * 8 > u64::MAX {
                        Err(ErrorKind::Semantic)
                    } else {
                        let st4 = if n > 6 {
                            emit(st3, TACInstruction::AdjustStack(((n - 6) * 8) as u64))
                        } else {
                            st3
                        };
                        match new_temp(st4, e.type_) {
                            Err(k) => Err(k),
                            Ok((dest, st5)) => Ok(
                                (
                                    Operand::Register(dest),
                                    emit(
                                        st5,
                                        TACInstruction::StoreValueInstruction {
                                            dest,
                                            src: Operand::Register(Pseudoregister::Register(Reg::AX, e.type_)),
                                        },
                                    ),
                                ),
                            ),
                        }
                    }
                },
            },
        },
        Expression::Prefix(op, x) => match spec_gen_expr(st, *x) {
            Err(k) => Err(k),
            Ok((v, st1)) => match v {
                Operand::Register(p) => Ok(
                    (
                        v,
                        emit(
                            st1,
                            TACInstruction::BinaryOpInstruction { dest: p, op: inc_dec_op(op), left: v, right: one() },
                        ),
                    ),
                ),
                _ => Err(ErrorKind::Semantic),
            },
        },
        Expression::Postfix(op, x) => match spec_gen_expr(st, *x) {
            Err(k) => Err(k),
            Ok((v, st1)) => match v {
                Operand::Register(p) => match new_temp(st1, e.type_) {
                    Err(k) => Err(k),
                    Ok((tmp, st2)) => Ok(
                        (
                            Operand::Register(tmp),
                            emit(
                                emit(st2, TACInstruction::StoreValueInstruction { dest: tmp, src: v }),
                                TACInstruction::BinaryOpInstruction {
                                    dest: p,
                                    op: inc_dec_op(op),
                                    left: v,
                                    right: one(),
                                },
                            ),
                        ),
                    ),
                },
                _ => Err(ErrorKind::Semantic),
            },
        },
        Expression::Cast(t, x) => match spec_gen_expr(st, *x) {
            Err(k) => Err(k),
            Ok((src, st1)) => if t == x.type_ {
                Ok((src, st1))
            } else {
                match new_temp(st1, t) {
                    Err(k) => Err(k),
                    Ok((dest, st2)) => Ok(
                        (Operand::Register(dest), emit(st2, cast_instruction(x.type_, t, dest, src))),
                    ),
                }
            },
        },
    }
}

/// The arguments after the first `skip` go on the stack, pushed last first.
pub open spec fn spec_gen_pushes(st: GenState, a: Arguments, skip: nat) -> Result<GenState, ErrorKind>
    decreases a,
{
    match a {
        Arguments::Nil => Ok(st),
        Arguments::Cons(x, rest) => match spec_gen_pushes(
            st,
            *rest,
            if skip > 0 {
                (skip - 1) as nat
            } else {
                0
            },
        ) {
            Err(k) => Err(k),
            Ok(st1) => if skip == 0 {
                match spec_gen_expr(st1, *x) {
                    Err(k) => Err(k),
                    Ok((v, st2)) => Ok(emit(st2, TACInstruction::PushArgument(v))),
                }
            } else {
                Ok(st1)
            },
        },
    }
}

/// The arguments from position `i` on that go in registers, first first.
pub open spec fn spec_gen_register_args(st: GenState, a: Arguments, i: int) -> Result<GenState, ErrorKind>
    decreases a,
{
    match a {
        Arguments::Nil => Ok(st),
        Arguments::Cons(x, rest) => if i < 6 {
            match spec_gen_expr(st, *x) {
                Err(k) => Err(k),
                Ok((v, st1)) => spec_gen_register_args(
                    emit(
                        st1,
                        TACInstruction::StoreValueInstruction {
                            dest: Pseudoregister::Register(arg_reg(i), x.type_),
                            src: v,
                        },
                    ),
                    *rest,
                    i + 1,
                ),
            }
        } else {
            Ok(st)
        },
    }
}

pub open spec fn spec_gen_opt(st: GenState, e: Option<Box<ASTNode>>) -> Result<(Option<Operand>, GenState), ErrorKind> {
    match e {
        None => Ok((None, st)),
        Some(x) => match spec_gen_expr(st, *x) {
            Err(k) => Err(k),
            Ok((v, st1)) => Ok((Some(v), st1)),
        },
    }
}

/// A local variable gets a stack slot and, when initialised, the value of its
/// initialiser; variables of static storage duration produce no code here.
pub open spec fn spec_gen_var_decl(st: GenState, d: VariableDeclaration) -> Result<GenState, ErrorKind> {
    if d.storage_class is Some {
        Ok(st)
    } else {
        match new_temp(st, d.var_type) {
            Err(k) => Err(k),
            Ok((p, st1)) => {
                let st2 = GenState { vars: assoc_insert(st1.vars, d.name, p), ..st1 };
                match d.init {
                    None => Ok(st2),
                    Some(x) => match spec_gen_expr(st2, *x) {
                        Err(k) => Err(k),
                        Ok((v, st3)) => Ok(emit(st3, TACInstruction::StoreValueInstruction { dest: p, src: v })),
                    },
                }
            },
        }
    }
}

pub open spec fn spec_gen_stmt(st: GenState, s: Statement) -> Result<GenState, ErrorKind>
    decreases s,
{
    match s {
        Statement::Return(e) => match spec_gen_expr(st, *e) {
            Err(k) => Err(k),
            Ok((v, st1)) => Ok(emit(st1, TACInstruction::ReturnInstruction { val: v })),
        },
        Statement::Expression(e) => match spec_gen_expr(st, *e) {
            Err(k) => Err(k),
            Ok((_, st1)) => Ok(st1),
        },
        Statement::If { condition, if_true, if_false } => match spec_gen_expr(st, *condition) {
            Err(k) => Err(k),
            Ok((cv, st1)) => match if_false {
                None => match new_label(st1, LabelKind::End) {
                    Err(k) => Err(k),
                    Ok((end_l, st2)) => match spec_gen_stmt(
                        emit(st2, TACInstruction::JumpIfZero { label: end_l, operand: cv }),
                        *if_true,
                    ) {
                        Err(k) => Err(k),
                        Ok(st3) => Ok(emit(st3, TACInstruction::Label { label: end_l })),
                    },
                },
                Some(f) => match new_label(st1, LabelKind::Else) {
                    Err(k) => Err(k),
                    Ok((else_l, st2)) => match new_label(st2, LabelKind::End) {
                        Err(k) => Err(k),
                        Ok((end_l, st3)) => match spec_gen_stmt(
                            emit(st3, TACInstruction::JumpIfZero { label: else_l, operand: cv }),
                            *if_true,
                        ) {
                            Err(k) => Err(k),
                            Ok(st4) => match spec_gen_stmt(
                                emit(
                                    emit(st4, TACInstruction::Jump { label: end_l }),
                                    TACInstruction::Label { label: else_l },
                                ),
                                *f,
                            ) {
                                Err(k) => Err(k),
                                Ok(st5) => Ok(emit(st5, TACInstruction::Label { label: end_l })),
                            },
                        },
                    },
                },
            },
        },
        Statement::Compound(b) => spec_gen_items(st, *b),
        Statement::Break(l) => Ok(
            emit(st, TACInstruction::Jump { label: loop_label(st, l, LabelKind::LoopEnd) }),
        ),
        Statement::Continue { label, is_for } => Ok(
            emit(
                st,
                TACInstruction::Jump {
                    label: loop_label(
                        st,
                        label,
                        if is_for {
                            LabelKind::LoopIncrement
                        } else {
                            LabelKind::LoopStart
                        },
                    ),
                },
            ),
        ),
        Statement::While { condition, body, label, is_do_while } => {
            let start = loop_label(st, label, LabelKind::LoopStart);
            let end = loop_label(st, label, LabelKind::LoopEnd);
            let st1 = emit(st, TACInstruction::Label { label: start });
            if !is_do_while {
                match spec_gen_expr(st1, *condition) {
                    Err(k) => Err(k),
                    Ok((cv, st2)) => match spec_gen_stmt(
                        emit(st2, TACInstruction::JumpIfZero { label: end, operand: cv }),
                        *body,
                    ) {
                        Err(k) => Err(k),
                        Ok(st3) => Ok(
                            emit(
                                emit(st3, TACInstruction::Jump { label: start }),
                                TACInstruction::Label { label: end },
                            ),
                        ),
                    },
                }
            } else {
                match spec_gen_stmt(st1, *body) {
                    Err(k) => Err(k),
                    Ok(st2) => match spec_gen_expr(st2, *condition) {
                        Err(k) => Err(k),
                        Ok((cv, st3)) => Ok(
                            emit(
                                emit(
                                    emit(st3, TACInstruction::JumpIfZero { label: end, operand: cv }),
                                    TACInstruction::Jump { label: start },
                                ),
                                TACInstruction::Label { label: end },
                            ),
                        ),
                    },
                }
            }
        },
        Statement::For { init, condition, increment, body, label } => {
            let start = loop_label(st, label, LabelKind::LoopStart);
            let end = loop_label(st, label, LabelKind::LoopEnd);
            let incr = loop_label(st, label, LabelKind::LoopIncrement);
            let init_res = match *init {
                ForInit::InitDecl(d) => spec_gen_var_decl(st, d),
                ForInit::InitExp(x) => match spec_gen_opt(st, x) {
                    Err(k) => Err(k),
                    Ok((_, st1)) => Ok(st1),
                },
            };
            match init_res {
                Err(k) => Err(k),
                Ok(st1) => {
                    let st2 = emit(st1, TACInstruction::Label { label: start });
                    match spec_gen_opt(st2, condition) {
                        Err(k) => Err(k),
                        Ok((cv, st3)) => {
                            let st4 = match cv {
                                Some(v) => emit(st3, TACInstruction::JumpIfZero { label: end, operand: v }),
                                None => st3,
                            };
                            match spec_gen_stmt(st4, *body) {
                                Err(k) => Err(k),
                                Ok(st5) => match spec_gen_opt(
                                    emit(st5, TACInstruction::Label { label: incr }),
                                    increment,
                                ) {
                                    Err(k) => Err(k),
                                    Ok((_, st6)) => Ok(
                                        emit(
                                            emit(st6, TACInstruction::Jump { label: start }),
                                            TACInstruction::Label { label: end },
                                        ),
                                    ),
                                },
                            }
                        },
                    }
                },
            }
        },
        Statement::Null => Ok(st),
    }
}

pub open spec fn spec_gen_items(st: GenState, b: Block) -> Result<GenState, ErrorKind>
    decreases b,
{
    match b {
        Block::Nil => Ok(st),
        Block::Cons(item, rest) => {
            let r = match *item {
                BlockItem::D(Declaration::VariableDeclaration(d)) => spec_gen_var_decl(st, d),
                BlockItem::D(Declaration::FunctionDeclaration(_)) => Ok(st),
                BlockItem::S(s) => spec_gen_stmt(st, s),
            };
            match r {
                Err(k) => Err(k),
                Ok(st1) => spec_gen_items(st1, *rest),
            }
        },
    }
}

/// Parameter `i` is copied from its register (the first six) or from the
/// caller's frame into a stack slot of its own.
pub open spec fn spec_gen_params(st: GenState, names: NameList, types: TypeList, i: int) -> Result<
    GenState,
    ErrorKind,
>
    decreases names,
{
    match names {
        NameList::Nil => Ok(st),
        NameList::Cons(n, rest) => match types {
            TypeList::Nil => Ok(st),
            TypeList::Cons(t, ts) => if i >= PARAMETER_LIMIT {
                Err(ErrorKind::Semantic)
            } else {
                match new_temp(st, t) {
                    Err(k) => Err(k),
                    Ok((p, st1)) => {
                        let src = if i < 6 {
                            Operand::Register(Pseudoregister::Register(arg_reg(i), t))
                        } else {
                            Operand::MemoryReference((16 + (i - 6) * 8) as u64, Reg::BP, t)
                        };
                        let st2 = GenState { vars: assoc_insert(st1.vars, n, p), ..st1 };
                        spec_gen_params(
                            emit(st2, TACInstruction::StoreValueInstruction { dest: p, src }),
                            *rest,
                            *ts,
                            i + 1,
                        )
                    },
                }
            },
        },
    }
}

/// A function definition: its entry, the stack allocation, the copies of its
/// parameters and its body. A declaration without a body produces nothing.
pub open spec fn spec_gen_function(st: GenState, f: FunctionDeclaration) -> Result<GenState, ErrorKind> {
    match f.body {
        None => Ok(st),
        Some(b) => {
            let st1 = emit(
                emit(
                    st,
                    TACInstruction::FunctionInstruction {
                        name: f.name,
                        global: f.storage_class != Some(StorageClass::Static),
                    },
                ),
                TACInstruction::AllocateStackInstruction,
            );
            match spec_gen_params(st1, f.params, f.func_type.params, 0) {
                Err(k) => Err(k),
                Ok(st2) => spec_gen_items(st2, *b),
            }
        },
    }
}

/// The instructions with a `return 0` added when they do not end in a return.
pub open spec fn spec_add_default_return(instrs: Seq<TACInstruction>) -> Seq<TACInstruction> {
    if instrs.len() == 0 || instrs.last() is ReturnInstruction {
        instrs
    } else {
        instrs.push(TACInstruction::ReturnInstruction { val: zero() })
    }
}


// ---------------------------------------------------------------------------
// The code generator.
// ---------------------------------------------------------------------------

/// How a generation step relates to its model.
pub open spec fn gen_outcome(r: Result<(), CompilerError>, m: Result<GenState, ErrorKind>, after: GenState) -> bool {
    match m {
        Ok(s) => r is Ok && after == s,
        Err(k) => r matches Err(e) && e.kind() == k,
    }
}

fn too_large() -> (e: CompilerError)
    ensures
        e.kind() == ErrorKind::Semantic,
{
    CompilerError::with_message(ErrorKind::Semantic, "Function too large")
}

/// The three-address code of one function and the stack it needs.
#[derive(Debug)]
pub struct FunctionBody {
    pub current_offset: u64,
    pub instructions: Vec<TACInstruction>,
    pub variable_to_pseudoregister: Vec<(Name, Pseudoregister)>,
}

impl FunctionBody {
    pub fn new() -> (b: Self)
        ensures
            b.current_offset == 8,
            b.instructions@ == Seq::<TACInstruction>::empty(),
            b.variable_to_pseudoregister@ == Seq::<(Name, Pseudoregister)>::empty(),
    {
        FunctionBody { current_offset: 8, instructions: Vec::new(), variable_to_pseudoregister: Vec::new() }
    }

    pub fn add_instruction(&mut self, instruction: TACInstruction)
        ensures
            final(self).instructions@ == old(self).instructions@.push(instruction),
            final(self).current_offset == old(self).current_offset,
            final(self).variable_to_pseudoregister@ == old(self).variable_to_pseudoregister@,
    {
        self.instructions.push(instruction);
    }

    /// Ends the code with `return 0` unless it is empty or already ends in a return.
    pub fn add_default_return(&mut self)
        ensures
            final(self).instructions@ == spec_add_default_return(old(self).instructions@),
            final(self).current_offset == old(self).current_offset,
            final(self).variable_to_pseudoregister@ == old(self).variable_to_pseudoregister@,
    {
        let n = self.instructions.len();
        if n == 0 {
            return;
        }
        match self.instructions[n - 1] {
            TACInstruction::ReturnInstruction { .. } => {},
            _ => self.add_instruction(
                TACInstruction::ReturnInstruction { val: Operand::Immediate(Const::ConstInt(0)) },
            ),
        }
    }
}

fn register_for_argument(i: u64) -> (r: Reg)
    ensures
        r == arg_reg(i as int),
{
    if i == 0 {
        Reg::DI
    } else if i == 1 {
        Reg::SI
    } else if i == 2 {
        Reg::DX
    } else if i == 3 {
        Reg::CX
    } else if i == 4 {
        Reg::R8
    } else {
        Reg::R9
    }
}

fn increment_operator(op: UnaryOperator) -> (b: BinaryOperator)
    ensures
        b == inc_dec_op(op),
{
    if op == UnaryOperator::Increment {
        BinaryOperator::Addition
    } else {
        BinaryOperator::Subtraction
    }
}

fn make_cast(from: Type, to: Type, dest: Pseudoregister, src: Operand) -> (i: TACInstruction)
    ensures
        i == cast_instruction(from, to, dest, src),
{
    let a = size_of_type(to);
    let b = size_of_type(from);
    if a == b {
        TACInstruction::StoreValueInstruction { dest, src }
    } else if a > b {
        if from == Type::UInt || from == Type::ULong {
            TACInstruction::ZeroExtend { dest, src }
        } else {
            TACInstruction::SignExtend { dest, src }
        }
    } else {
        TACInstruction::Truncate { dest, src }
    }
}

fn count_args(a: &Arguments) -> (r: Option<u64>)
    ensures
        match r {
            Some(k) => k == args_len(*a),
            None => args_len(*a) > u64::MAX,
        },
    decreases a,
{
    match a {
        Arguments::Nil => Some(0),
        Arguments::Cons(_, rest) => match count_args(rest) {
            Some(k) => if k == u64::MAX {
                None
            } else {
                Some(k + 1)
            },
            None => None,
        },
    }
}

/// Turns the statements of one function into three-address code.
pub struct TacVisitor {
    name: usize,
    body: FunctionBody,
    label_count: u64,
}

impl View for TacVisitor {
    type V = GenState;

    closed spec fn view(&self) -> GenState {
        GenState {
            instrs: self.body.instructions@,
            offset: self.body.current_offset as int,
            vars: self.body.variable_to_pseudoregister@,
            labels: self.label_count as int,
            function: self.name,
        }
    }
}

impl TacVisitor {
    /// A generator for the function named `name` that appends to `body`.
    pub fn new(name: usize, body: FunctionBody) -> (v: Self)
        ensures
            v@ == (GenState {
                instrs: body.instructions@,
                offset: body.current_offset as int,
                vars: body.variable_to_pseudoregister@,
                labels: 0,
                function: name,
            }),
    {
        TacVisitor { name, body, label_count: 0 }
    }

    /// The generated code.
    pub fn into_body(self) -> (b: FunctionBody)
        ensures
            b.instructions@ == self@.instrs,
            b.current_offset == self@.offset,
            b.variable_to_pseudoregister@ == self@.vars,
    {
        self.body
    }

    fn emit(&mut self, i: TACInstruction)
        ensures
            final(self)@ == emit(old(self)@, i),
    {
        self.body.add_instruction(i);
    }

    fn new_temp(&mut self, t: Type) -> (r: Result<Pseudoregister, CompilerError>)
        ensures
            step_outcome(r, new_temp(old(self)@, t), final(self)@),
    {
        if self.body.current_offset > FRAME_LIMIT - 8 {
            return Err(too_large());
        }
        let p = Pseudoregister::Pseudoregister(self.body.current_offset, t);
        self.body.current_offset = self.body.current_offset + 8;
        Ok(p)
    }

    fn new_label(&mut self, kind: LabelKind) -> (r: Result<Label, CompilerError>)
        ensures
            step_outcome(r, new_label(old(self)@, kind), final(self)@),
    {
        if self.label_count == u64::MAX {
            return Err(too_large());
        }
        let l = Label { function: self.name, number: self.label_count, kind };
        self.label_count = self.label_count + 1;
        Ok(l)
    }

    #[verifier::rlimit(30)]
    fn gen_logical(&mut self, e: &ASTNode) -> (r: Result<Operand, CompilerError>)
        requires
            e.kind matches Expression::Binary { op, .. } && (op == BinaryOperator::LogicalAnd || op
                == BinaryOperator::LogicalOr),
        ensures
            step_outcome(r, spec_gen_expr(old(self)@, *e), final(self)@),
        decreases e, 1nat,
    {
        match &e.kind {
            Expression::Binary { op, left, right } => {
                let and = *op == BinaryOperator::LogicalAnd;
                let short = self.new_label(
                    if and {
                        LabelKind::False
                    } else {
                        LabelKind::True
                    },
                )?;
                let end = self.new_label(LabelKind::End)?;
                let lv = self.gen_expr(left)?;
                if and {
                    self.emit(TACInstruction::JumpIfZero { label: short, operand: lv });
                } else {
                    self.emit(TACInstruction::JumpIfNotZero { label: short, operand: lv });
                }
                let rv = self.gen_expr(right)?;
                if and {
                    self.emit(TACInstruction::JumpIfZero { label: short, operand: rv });
                } else {
                    self.emit(TACInstruction::JumpIfNotZero { label: short, operand: rv });
                }
                let dest = self.new_temp(Type::Int)?;
                let (fall, taken) = if and {
                    (Operand::Immediate(Const::ConstInt(1)), Operand::Immediate(Const::ConstInt(0)))
                } else {
                    (Operand::Immediate(Const::ConstInt(0)), Operand::Immediate(Const::ConstInt(1)))
                };
                self.emit(TACInstruction::StoreValueInstruction { dest, src: fall });
                self.emit(TACInstruction::Jump { label: end });
                self.emit(TACInstruction::Label { label: short });
                self.emit(TACInstruction::StoreValueInstruction { dest, src: taken });
                self.emit(TACInstruction::Label { label: end });
                Ok(Operand::Register(dest))
            },
            _ => Err(too_large()),
        }
    }

    #[verifier::rlimit(30)]
    fn gen_condition(&mut self, e: &ASTNode) -> (r: Result<Operand, CompilerError>)
        requires
            e.kind is Condition,
        ensures
            step_outcome(r, spec_gen_expr(old(self)@, *e), final(self)@),
        decreases e, 1nat,
    {
        match &e.kind {
            Expression::Condition { condition, if_true, if_false } => {
                let cv = self.gen_expr(condition)?;
                let else_l = self.new_label(LabelKind::Else)?;
                let end_l = self.new_label(LabelKind::End)?;
                let dest = self.new_temp(e.type_)?;
                self.emit(TACInstruction::JumpIfZero { label: else_l, operand: cv });
                let tv = self.gen_expr(if_true)?;
                self.emit(TACInstruction::StoreValueInstruction { dest, src: tv });
                self.emit(TACInstruction::Jump { label: end_l });
                self.emit(TACInstruction::Label { label: else_l });
                let fv = self.gen_expr(if_false)?;
                self.emit(TACInstruction::StoreValueInstruction { dest, src: fv });
                self.emit(TACInstruction::Label { label: end_l });
                Ok(Operand::Register(dest))
            },
            _ => Err(too_large()),
        }
    }

    #[verifier::rlimit(30)]
    fn gen_call(&mut self, e: &ASTNode) -> (r: Result<Operand, CompilerError>)
        requires
            e.kind is FunctionCall,
        ensures
            step_outcome(r, spec_gen_expr(old(self)@, *e), final(self)@),
        decreases e, 1nat,
    {
        match &e.kind {
            Expression::FunctionCall(f, args) => {
                self.gen_pushes(args, 6)?;
                self.gen_register_args(args, 0)?;
                self.emit(TACInstruction::FunctionCall(*f));
                match count_args(args) {
                    None => {
                        return Err(too_large());
                    },
                    Some(n) => if n > 6 {
                        match (n - 6).checked_mul(8) {
                            None => {
                                return Err(too_large());
                            },
                            Some(bytes) => self.emit(TACInstruction::AdjustStack(bytes)),
                        }
                    },
                }
                let dest = self.new_temp(e.type_)?;
                self.emit(
                    TACInstruction::StoreValueInstruction {
                        dest,
                        src: Operand::Register(Pseudoregister::Register(Reg::AX, e.type_)),
                    },
                );
                Ok(Operand::Register(dest))
            },
            _ => Err(too_large()),
        }
    }

    #[verifier::rlimit(30)]
    fn gen_expr(&mut self, e: &ASTNode) -> (r: Result<Operand, CompilerError>)
        ensures
            step_outcome(r, spec_gen_expr(old(self)@, *e), final(self)@),
        decreases e, 2nat,
    {
        match &e.kind {
            Expression::Constant(c) => Ok(Operand::Immediate(*c)),
            Expression::Variable(n) => match assoc_find(&self.body.variable_to_pseudoregister, *n) {
                Some(i) => Ok(Operand::Register(self.body.variable_to_pseudoregister[i].1)),
                None => Ok(Operand::Register(Pseudoregister::Data(*n, e.type_))),
            },
            Expression::Unary(op, x) => {
                let src = self.gen_expr(x)?;
                if *op == UnaryOperator::UnaryAdd {
                    return Ok(src);
                }
                let dest = self.new_temp(e.type_)?;
                self.emit(TACInstruction::UnaryOpInstruction { dest, op: *op, operand: src });
                Ok(Operand::Register(dest))
            },
            Expression::Binary { op, left, right } => {
                if *op == BinaryOperator::LogicalAnd || *op == BinaryOperator::LogicalOr {
                    return self.gen_logical(e);
                }
                let lv = self.gen_expr(left)?;
                let rv = self.gen_expr(right)?;
                let dest = self.new_temp(e.type_)?;
                self.emit(TACInstruction::BinaryOpInstruction { dest, op: *op, left: lv, right: rv });
                Ok(Operand::Register(dest))
            },
            Expression::Assignment { left, right } => {
                let dv = self.gen_expr(left)?;
                let src = self.gen_expr(right)?;
                match dv {
                    Operand::Register(dest) => {
                        self.emit(TACInstruction::StoreValueInstruction { dest, src });
                        Ok(src)
                    },
                    _ => Err(CompilerError::with_message(ErrorKind::Semantic, "Expected an lvalue")),
                }
            },
            Expression::Condition { .. } => self.gen_condition(e),
            Expression::FunctionCall(..) => self.gen_call(e),
            Expression::Prefix(op, x) => {
                let v = self.gen_expr(x)?;
                match v {
                    Operand::Register(p) => {
                        self.emit(
                            TACInstruction::BinaryOpInstruction {
                                dest: p,
                                op: increment_operator(*op),
                                left: v,
                                right: Operand::Immediate(Const::ConstInt(1)),
                            },
                        );
                        Ok(v)
                    },
                    _ => Err(CompilerError::with_message(ErrorKind::Semantic, "Expected an lvalue")),
                }
            },
            Expression::Postfix(op, x) => {
                let v = self.gen_expr(x)?;
                match v {
                    Operand::Register(p) => {
                        let tmp = self.new_temp(e.type_)?;
                        self.emit(TACInstruction::StoreValueInstruction { dest: tmp, src: v });
                        self.emit(
                            TACInstruction::BinaryOpInstruction {
                                dest: p,
                                op: increment_operator(*op),
                                left: v,
                                right: Operand::Immediate(Const::ConstInt(1)),
                            },
                        );
                        Ok(Operand::Register(tmp))
                    },
                    _ => Err(CompilerError::with_message(ErrorKind::Semantic, "Expected an lvalue")),
                }
            },
            Expression::Cast(t, x) => {
                let src = self.gen_expr(x)?;
                if *t == x.type_ {
                    return Ok(src);
                }
                let dest = self.new_temp(*t)?;
                self.emit(make_cast(x.type_, *t, dest, src));
                Ok(Operand::Register(dest))
            },
        }
    }

    fn gen_pushes(&mut self, a: &Arguments, skip: u64) -> (r: Result<(), CompilerError>)
        requires
            skip <= 6,
        ensures
            gen_outcome(r, spec_gen_pushes(old(self)@, *a, skip as nat), final(self)@),
        decreases a,
    {
        match a {
            Arguments::Nil => Ok(()),
            Arguments::Cons(x, rest) => {
                self.gen_pushes(
                    rest,
                    if skip > 0 {
                        skip - 1
                    } else {
                        0
                    },
                )?;
                if skip == 0 {
                    let v = self.gen_expr(x)?;
                    self.emit(TACInstruction::PushArgument(v));
                }
                Ok(())
            },
        }
    }

    fn gen_register_args(&mut self, a: &Arguments, i: u64) -> (r: Result<(), CompilerError>)
        requires
            i <= 6,
        ensures
            gen_outcome(r, spec_gen_register_args(old(self)@, *a, i as int), final(self)@),
        decreases a,
    {
        match a {
            Arguments::Nil => Ok(()),
            Arguments::Cons(x, rest) => {
                if i >= 6 {
                    return Ok(());
                }
                let v = self.gen_expr(x)?;
                self.emit(
                    TACInstruction::StoreValueInstruction {
                        dest: Pseudoregister::Register(register_for_argument(i), x.type_),
                        src: v,
                    },
                );
                self.gen_register_args(rest, i + 1)
            },
        }
    }

    fn gen_opt(&mut self, e: &Option<Box<ASTNode>>) -> (r: Result<Option<Operand>, CompilerError>)
        ensures
            step_outcome(r, spec_gen_opt(old(self)@, *e), final(self)@),
    {
        match e {
            None => Ok(None),
            Some(x) => {
                let v = self.gen_expr(x)?;
                Ok(Some(v))
            },
        }
    }

    fn gen_var_decl(&mut self, d: &VariableDeclaration) -> (r: Result<(), CompilerError>)
        ensures
            gen_outcome(r, spec_gen_var_decl(old(self)@, *d), final(self)@),
    {
        if d.storage_class.is_some() {
            return Ok(());
        }
        let p = self.new_temp(d.var_type)?;
        assoc_put(&mut self.body.variable_to_pseudoregister, d.name, p);
        match &d.init {
            None => Ok(()),
            Some(x) => {
                let v = self.gen_expr(x)?;
                self.emit(TACInstruction::StoreValueInstruction { dest: p, src: v });
                Ok(())
            },
        }
    }

    #[verifier::rlimit(60)]
    fn gen_if(&mut self, s: &Statement) -> (r: Result<(), CompilerError>)
        requires
            *s is If,
        ensures
            gen_outcome(r, spec_gen_stmt(old(self)@, *s), final(self)@),
        decreases s, 1nat,
    {
        match s {
            Statement::If { condition, if_true, if_false } => {
                let cv = self.gen_expr(condition)?;
                match if_false {
                    None => {
                        let end_l = self.new_label(LabelKind::End)?;
                        self.emit(TACInstruction::JumpIfZero { label: end_l, operand: cv });
                        self.gen_stmt(if_true)?;
                        self.emit(TACInstruction::Label { label: end_l });
                        Ok(())
                    },
                    Some(f) => {
                        let else_l = self.new_label(LabelKind::Else)?;
                        let end_l = self.new_label(LabelKind::End)?;
                        self.emit(TACInstruction::JumpIfZero { label: else_l, operand: cv });
                        self.gen_stmt(if_true)?;
                        self.emit(TACInstruction::Jump { label: end_l });
                        self.emit(TACInstruction::Label { label: else_l });
                        self.gen_stmt(f)?;
                        self.emit(TACInstruction::Label { label: end_l });
                        Ok(())
                    },
                }
            },
            _ => Ok(()),
        }
    }

    #[verifier::rlimit(30)]
    fn gen_while(&mut self, s: &Statement) -> (r: Result<(), CompilerError>)
        requires
            *s is While,
        ensures
            gen_outcome(r, spec_gen_stmt(old(self)@, *s), final(self)@),
        decreases s, 1nat,
    {
        match s {
            Statement::While { condition, body, label, is_do_while } => {
                let start = Label { function: self.name, number: *label, kind: LabelKind::LoopStart };
                let end = Label { function: self.name, number: *label, kind: LabelKind::LoopEnd };
                self.emit(TACInstruction::Label { label: start });
                if !*is_do_while {
                    let cv = self.gen_expr(condition)?;
                    self.emit(TACInstruction::JumpIfZero { label: end, operand: cv });
                    self.gen_stmt(body)?;
                    self.emit(TACInstruction::Jump { label: start });
                    self.emit(TACInstruction::Label { label: end });
                } else {
                    self.gen_stmt(body)?;
                    let cv = self.gen_expr(condition)?;
                    self.emit(TACInstruction::JumpIfZero { label: end, operand: cv });
                    self.emit(TACInstruction::Jump { label: start });
                    self.emit(TACInstruction::Label { label: end });
                }
                Ok(())
            },
            _ => Ok(()),
        }
    }

    #[verifier::rlimit(30)]
    fn gen_for(&mut self, s: &Statement) -> (r: Result<(), CompilerError>)
        requires
            *s is For,
        ensures
            gen_outcome(r, spec_gen_stmt(old(self)@, *s), final(self)@),
        decreases s, 1nat,
    {
        match s {
            Statement::For { init, condition, increment, body, label } => {
                let start = Label { function: self.name, number: *label, kind: LabelKind::LoopStart };
                let end = Label { function: self.name, number: *label, kind: LabelKind::LoopEnd };
                let incr = Label { function: self.name, number: *label, kind: LabelKind::LoopIncrement };
                match &**init {
                    ForInit::InitDecl(d) => self.gen_var_decl(d)?,
                    ForInit::InitExp(x) => {
                        self.gen_opt(x)?;
                    },
                }
                self.emit(TACInstruction::Label { label: start });
                let cv = self.gen_opt(condition)?;
                match cv {
                    Some(v) => self.emit(TACInstruction::JumpIfZero { label: end, operand: v }),
                    None => {},
                }
                self.gen_stmt(body)?;
                self.emit(TACInstruction::Label { label: incr });
                self.gen_opt(increment)?;
                self.emit(TACInstruction::Jump { label: start });
                self.emit(TACInstruction::Label { label: end });
                Ok(())
            },
            _ => Ok(()),
        }
    }

    fn gen_stmt(&mut self, s: &Statement) -> (r: Result<(), CompilerError>)
        ensures
            gen_outcome(r, spec_gen_stmt(old(self)@, *s), final(self)@),
        decreases s, 2nat,
    {
        match s {
            Statement::Return(e) => {
                let v = self.gen_expr(e)?;
                self.emit(TACInstruction::ReturnInstruction { val: v });
                Ok(())
            },
            Statement::Expression(e) => {
                self.gen_expr(e)?;
                Ok(())
            },
            Statement::If { .. } => self.gen_if(s),
            Statement::Compound(b) => self.gen_items(b),
            Statement::Break(l) => {
                self.emit(
                    TACInstruction::Jump {
                        label: Label { function: self.name, number: *l, kind: LabelKind::LoopEnd },
                    },
                );
                Ok(())
            },
            Statement::Continue { label, is_for } => {
                let kind = if *is_for {
                    LabelKind::LoopIncrement
                } else {
                    LabelKind::LoopStart
                };
                self.emit(TACInstruction::Jump { label: Label { function: self.name, number: *label, kind } });
                Ok(())
            },
            Statement::While { .. } => self.gen_while(s),
            Statement::For { .. } => self.gen_for(s),
            Statement::Null => Ok(()),
        }
    }

    fn gen_items(&mut self, b: &Block) -> (r: Result<(), CompilerError>)
        ensures
            gen_outcome(r, spec_gen_items(old(self)@, *b), final(self)@),
        decreases b, 2nat,
    {
        match b {
            Block::Nil => Ok(()),
            Block::Cons(item, rest) => {
                match &**item {
                    BlockItem::D(Declaration::VariableDeclaration(d)) => self.gen_var_decl(d)?,
                    BlockItem::D(Declaration::FunctionDeclaration(_)) => {},
                    BlockItem::S(s) => self.gen_stmt(s)?,
                }
                self.gen_items(rest)
            },
        }
    }

    fn gen_params(&mut self, names: &NameList, types: &TypeList, i: u64) -> (r: Result<(), CompilerError>)
        ensures
            gen_outcome(r, spec_gen_params(old(self)@, *names, *types, i as int), final(self)@),
        decreases names,
    {
        match names {
            NameList::Nil => Ok(()),
            NameList::Cons(n, rest) => match types {
                TypeList::Nil => Ok(()),
                TypeList::Cons(t, ts) => {
                    if i >= PARAMETER_LIMIT {
                        return Err(too_large());
                    }
                    let p = self.new_temp(*t)?;
                    let src = if i < 6 {
                        Operand::Register(Pseudoregister::Register(register_for_argument(i), *t))
                    } else {
                        Operand::MemoryReference(16 + (i - 6) * 8, Reg::BP, *t)
                    };
                    assoc_put(&mut self.body.variable_to_pseudoregister, *n, p);
                    self.emit(TACInstruction::StoreValueInstruction { dest: p, src });
                    self.gen_params(rest, ts, i + 1)
                },
            },
        }
    }

    /// Generates the code of a function definition.
    pub fn gen_function(&mut self, f: &FunctionDeclaration) -> (r: Result<(), CompilerError>)
        ensures
            gen_outcome(r, spec_gen_function(old(self)@, *f), final(self)@),
    {
        match &f.body {
            None => Ok(()),
            Some(b) => {
                let global = match f.storage_class {
                    Some(StorageClass::Static) => false,
                    _ => true,
                };
                self.emit(TACInstruction::FunctionInstruction { name: f.name, global });
                self.emit(TACInstruction::AllocateStackInstruction);
                self.gen_params(&f.params, &f.func_type.params, 0)?;
                self.gen_items(b)
            },
        }
    }
}

} // verus!
