use crate::ast::{Const, Name};
use crate::lexer::{BinaryOperator, Type, UnaryOperator};
use crate::tac::{Label, Operand, Pseudoregister, Reg, TACInstruction};
use crate::jump_laws::{jump_target, places};
use crate::tac_generator::{FunctionBody, FRAME_LIMIT};
use vstd::prelude::*;

verus! {

/// Condition codes of conditional jumps and `set` instructions.
#[derive(Debug, Clone, Copy, PartialEq, Eq, Structural)]
pub enum CondCode {
    Equal,
    NotEqual,
    GreaterThan,
    LessThan,
    GreaterEqual,
    LessEqual,
    Above,
    AboveOrEqual,
    Below,
    BelowOrEqual,
}

/// An x86-64 instruction or directive.
#[derive(Debug, Clone, Copy, PartialEq, Eq, Structural)]
pub enum AsmAst {
    Function { name: Name, global: bool },
    Static { size: i32, name: Name, global: bool, init: Const },
    Mov { size: i32, src: Operand, dest: Pseudoregister },
    Movsx { src: Operand, dest: Pseudoregister },
    MovZeroExtend { src: Operand, dest: Pseudoregister },
    MovAl(Pseudoregister),
    Unary { operator: UnaryOperator, size: i32, dest: Pseudoregister },
    Binary { operator: BinaryOperator, size: i32, src: Operand, dest: Pseudoregister },
    Cmp { size: i32, left: Operand, right: Operand },
    Idiv { size: i32, operand: Pseudoregister },
    Div { size: i32, operand: Operand },
    Cdq { size: i32 },
    Jmp(Label),
    JmpCC { condition: CondCode, label: Label },
    SetCC(CondCode),
    Label(Label),
    Push(Operand),
    Call(Name),
    Ret,
    Testl(Pseudoregister),
}

// ---------------------------------------------------------------------------
// The model of instruction selection.
// ---------------------------------------------------------------------------

pub open spec fn reg(r: Reg, t: Type) -> Pseudoregister {
    Pseudoregister::Register(r, t)
}

pub open spec fn reg_op(r: Reg, t: Type) -> Operand {
    Operand::Register(Pseudoregister::Register(r, t))
}

/// `int` for four-byte values, `long` otherwise.
pub open spec fn type_of_size(size: i32) -> Type {
    if size == 4 {
        Type::Int
    } else {
        Type::Long
    }
}

pub open spec fn unsigned_code(op: BinaryOperator) -> CondCode {
    match op {
        BinaryOperator::Equals => CondCode::Equal,
        BinaryOperator::NotEquals => CondCode::NotEqual,
        BinaryOperator::LessThan => CondCode::Below,
        BinaryOperator::GreaterThan => CondCode::Above,
        BinaryOperator::LessThanOrEquals => CondCode::BelowOrEqual,
        _ => CondCode::AboveOrEqual,
    }
}

pub open spec fn signed_code(op: BinaryOperator) -> CondCode {
    match op {
        BinaryOperator::Equals => CondCode::Equal,
        BinaryOperator::NotEquals => CondCode::NotEqual,
        BinaryOperator::LessThan => CondCode::LessThan,
        BinaryOperator::GreaterThan => CondCode::GreaterThan,
        BinaryOperator::LessThanOrEquals => CondCode::LessEqual,
        _ => CondCode::GreaterEqual,
    }
}

pub open spec fn is_comparison(op: BinaryOperator) -> bool {
    match op {
        BinaryOperator::Equals | BinaryOperator::NotEquals | BinaryOperator::GreaterThan
        | BinaryOperator::GreaterThanOrEquals | BinaryOperator::LessThan
        | BinaryOperator::LessThanOrEquals => true,
        _ => false,
    }
}

/// The instructions for `dest = left op right`.
pub open spec fn spec_binary_op(
    dest: Pseudoregister,
    op: BinaryOperator,
    left: Operand,
    right: Operand,
) -> Seq<AsmAst> {
    let t = type_of_size(left.spec_size());
    let ds = dest.spec_size();
    match op {
        BinaryOperator::BitwiseShiftLeft | BinaryOperator::BitwiseShiftRight => seq![
            AsmAst::Mov { size: ds, src: left, dest },
        ] + if right is Immediate {
            seq![AsmAst::Binary { operator: op, size: ds, src: right, dest }]
        } else {
            seq![
                AsmAst::Mov { size: right.spec_size(), src: right, dest: reg(Reg::CX, t) },
                AsmAst::Binary { operator: op, size: ds, src: reg_op(Reg::CL, Type::Int), dest },
            ]
        },
        BinaryOperator::Addition | BinaryOperator::Subtraction | BinaryOperator::BitwiseAnd
        | BinaryOperator::BitwiseOr | BinaryOperator::BitwiseXor => seq![
            AsmAst::Mov { size: ds, src: left, dest },
            AsmAst::Binary { operator: op, size: ds, src: right, dest },
        ],
        BinaryOperator::Multiply => seq![
            AsmAst::Mov { size: left.spec_size(), src: left, dest: reg(Reg::AX, t) },
            AsmAst::Binary {
                operator: BinaryOperator::Multiply,
                size: right.spec_size(),
                src: right,
                dest: reg(Reg::AX, t),
            },
            AsmAst::Mov { size: ds, src: reg_op(Reg::AX, t), dest },
        ],
        BinaryOperator::Divide | BinaryOperator::Modulo => {
            let ls = left.spec_size();
            let divide = if left.spec_is_unsigned() {
                let c = if ls == 4 {
                    Const::ConstUInt(0)
                } else {
                    Const::ConstULong(0)
                };
                seq![
                    AsmAst::Mov { size: ls, src: left, dest: reg(Reg::AX, t) },
                    AsmAst::Mov { size: ls, src: Operand::Immediate(c), dest: reg(Reg::DX, t) },
                ] + if right is Immediate {
                    seq![
                        AsmAst::Mov { size: right.spec_size(), src: right, dest: reg(Reg::R11, t) },
                        AsmAst::Div { size: ls, operand: reg_op(Reg::R11, t) },
                    ]
                } else {
                    seq![AsmAst::Div { size: ls, operand: right }]
                }
            } else {
                seq![
                    AsmAst::Mov { size: ls, src: left, dest: reg(Reg::AX, t) },
                    AsmAst::Cdq { size: ls },
                    AsmAst::Mov { size: right.spec_size(), src: right, dest: reg(Reg::CX, t) },
                    AsmAst::Idiv { size: right.spec_size(), operand: reg(Reg::CX, t) },
                ]
            };
            divide + seq![
                AsmAst::Mov {
                    size: ds,
                    src: reg_op(
                        if op == BinaryOperator::Divide {
                            Reg::AX
                        } else {
                            Reg::DX
                        },
                        t,
                    ),
                    dest,
                },
            ]
        },
        _ => if is_comparison(op) {
            let compare = if right.spec_size() == 8 && right is Immediate {
                seq![
                    AsmAst::Mov { size: right.spec_size(), src: right, dest: reg(Reg::R11, Type::Long) },
                    AsmAst::Cmp { size: 8, left: reg_op(Reg::R11, Type::Long), right: reg_op(Reg::DX, Type::Long) },
                ]
            } else {
                seq![AsmAst::Cmp { size: left.spec_size(), left: right, right: reg_op(Reg::DX, t) }]
            };
            let code = if right.spec_is_unsigned() || left.spec_is_unsigned() {
                unsigned_code(op)
            } else {
                signed_code(op)
            };
            seq![AsmAst::Mov { size: left.spec_size(), src: left, dest: reg(Reg::DX, t) }] + compare
                + seq![
                AsmAst::Mov { size: ds, src: Operand::Immediate(Const::ConstInt(0)), dest },
                AsmAst::SetCC(code),
                AsmAst::MovAl(reg(Reg::R10, Type::Int)),
                AsmAst::Mov { size: 4, src: reg_op(Reg::R10, Type::Int), dest },
            ]
        } else {
            Seq::empty()
        },
    }
}

/// The bytes a frame of `offset` bytes reserves: `offset` rounded up to 16.
pub open spec fn frame_bytes(offset: int) -> int {
    (offset + 15) / 16 * 16
}

/// The instructions one three-address instruction becomes, in a function
/// whose frame uses `frame` bytes.
pub open spec fn spec_tac_to_asm(i: TACInstruction, frame: int) -> Seq<AsmAst> {
    match i {
        TACInstruction::FunctionInstruction { name, global } => seq![AsmAst::Function { name, global }],
        TACInstruction::UnaryOpInstruction { dest, op, operand } => if op == UnaryOperator::LogicalNot {
            spec_binary_op(
                dest,
                BinaryOperator::Equals,
                operand,
                Operand::Immediate(
                    if operand.spec_size() == 8 {
                        Const::ConstLong(0)
                    } else {
                        Const::ConstInt(0)
                    },
                ),
            )
        } else {
            seq![
                AsmAst::Mov { size: dest.spec_size(), src: operand, dest },
                AsmAst::Unary { operator: op, size: dest.spec_size(), dest },
            ]
        },
        TACInstruction::BinaryOpInstruction { dest, op, left, right } => spec_binary_op(dest, op, left, right),
        TACInstruction::JumpIfZero { label, operand } => seq![
            AsmAst::Mov { size: 4, src: operand, dest: reg(Reg::DX, Type::Int) },
            AsmAst::Testl(reg(Reg::DX, Type::Int)),
            AsmAst::JmpCC { condition: CondCode::Equal, label },
        ],
        TACInstruction::JumpIfNotZero { label, operand } => seq![
            AsmAst::Mov { size: 4, src: operand, dest: reg(Reg::DX, Type::Int) },
            AsmAst::Testl(reg(Reg::DX, Type::Int)),
            AsmAst::JmpCC { condition: CondCode::NotEqual, label },
        ],
        TACInstruction::Jump { label } => seq![AsmAst::Jmp(label)],
        TACInstruction::Label { label } => seq![AsmAst::Label(label)],
        TACInstruction::StoreValueInstruction { dest, src } => seq![
            AsmAst::Mov { size: dest.spec_size(), src, dest },
        ],
        TACInstruction::ReturnInstruction { val } => seq![
            AsmAst::Mov { size: val.spec_size(), src: val, dest: reg(Reg::AX, type_of_size(val.spec_size())) },
            AsmAst::Ret,
        ],
        TACInstruction::AllocateStackInstruction => seq![
            AsmAst::Binary {
                operator: BinaryOperator::Subtraction,
                size: 8,
                src: Operand::Immediate(Const::ConstLong(frame_bytes(frame) as u64)),
                dest: reg(Reg::SP, Type::Long),
            },
        ],
        TACInstruction::FunctionCall(name) => seq![AsmAst::Call(name)],
        TACInstruction::PushArgument(v) => seq![
            AsmAst::Mov { size: v.spec_size(), src: v, dest: reg(Reg::R10, type_of_size(v.spec_size())) },
            AsmAst::Push(reg_op(Reg::R10, Type::Long)),
        ],
        TACInstruction::AdjustStack(n) => seq![
            AsmAst::Binary {
                operator: BinaryOperator::Addition,
                size: 8,
                src: Operand::Immediate(Const::ConstLong(n)),
                dest: reg(Reg::SP, Type::Long),
            },
        ],
        TACInstruction::StaticVariable { name, global, init } => seq![
            AsmAst::Static { size: init.spec_size(), name, global, init },
        ],
        TACInstruction::SignExtend { dest, src } => seq![
            AsmAst::Mov { size: 4, src, dest: reg(Reg::R10, Type::Int) },
            AsmAst::Movsx { src: reg_op(Reg::R10, Type::Int), dest: reg(Reg::R10, Type::Long) },
            AsmAst::Mov { size: 8, src: reg_op(Reg::R10, Type::Long), dest },
        ],
        TACInstruction::Truncate { dest, src } => seq![AsmAst::Mov { size: 4, src, dest }],
        TACInstruction::ZeroExtend { dest, src } => seq![AsmAst::MovZeroExtend { src, dest }],
    }
}

/// The instructions of a whole sequence, in order.
pub open spec fn spec_tac_list_to_asm(instrs: Seq<TACInstruction>, frame: int) -> Seq<AsmAst>
    decreases instrs.len(),
{
    if instrs.len() == 0 {
        Seq::empty()
    } else {
        spec_tac_list_to_asm(instrs.drop_last(), frame) + spec_tac_to_asm(instrs.last(), frame)
    }
}

// ---------------------------------------------------------------------------
// The model of the fix-up pass.
// ---------------------------------------------------------------------------

/// Whether a place is in memory (a stack slot or a named object).
pub open spec fn in_memory(p: Pseudoregister) -> bool {
    p is Pseudoregister || p is Data
}

/// Whether an operand is in memory.
pub open spec fn operand_in_memory(o: Operand) -> bool {
    match o {
        Operand::Register(p) => in_memory(p),
        Operand::MemoryReference(..) => true,
        Operand::Immediate(_) => false,
    }
}

/// Whether a two-operand instruction would read and write memory at once,
/// which x86-64 does not encode.
pub open spec fn spec_should_split(src: Operand, dest: Pseudoregister) -> bool {
    operand_in_memory(src) && in_memory(dest)
}

/// An instruction rewritten so that it has at most one memory operand,
/// going through the scratch register `r10`.
pub open spec fn spec_fix_intermediate(a: AsmAst) -> Seq<AsmAst> {
    match a {
        AsmAst::Binary { operator, size, src, dest } => if spec_should_split(src, dest) {
            let r10 = reg(Reg::R10, type_of_size(size));
            seq![
                AsmAst::Mov { size, src, dest: r10 },
                AsmAst::Binary { operator, size, src: Operand::Register(r10), dest },
            ]
        } else {
            seq![a]
        },
        AsmAst::Mov { size, src, dest } => if spec_should_split(src, dest) {
            let r10 = reg(Reg::R10, type_of_size(size));
            seq![AsmAst::Mov { size, src, dest: r10 }, AsmAst::Mov { size, src: Operand::Register(r10), dest }]
        } else {
            seq![a]
        },
        AsmAst::MovZeroExtend { src, dest } => seq![
            AsmAst::Mov { size: 4, src, dest: reg(Reg::R10, Type::Int) },
            AsmAst::Mov { size: 8, src: reg_op(Reg::R10, Type::Long), dest },
        ],
        _ => seq![a],
    }
}

pub open spec fn spec_assembly_fix(instrs: Seq<AsmAst>) -> Seq<AsmAst>
    decreases instrs.len(),
{
    if instrs.len() == 0 {
        Seq::empty()
    } else {
        spec_assembly_fix(instrs.drop_last()) + spec_fix_intermediate(instrs.last())
    }
}

/// Whether an instruction reads and writes memory at once.
pub open spec fn memory_to_memory(a: AsmAst) -> bool {
    match a {
        AsmAst::Mov { src, dest, .. } => spec_should_split(src, dest),
        AsmAst::Binary { src, dest, .. } => spec_should_split(src, dest),
        _ => false,
    }
}


// ---------------------------------------------------------------------------
// Instruction selection and fix-up.
// ---------------------------------------------------------------------------

fn size_type(size: i32) -> (t: Type)
    ensures
        t == type_of_size(size),
{
    if size == 4 {
        Type::Int
    } else {
        Type::Long
    }
}

fn condition_code(op: BinaryOperator, unsigned: bool) -> (c: CondCode)
    ensures
        c == (if unsigned {
            unsigned_code(op)
        } else {
            signed_code(op)
        }),
{
    if unsigned {
        match op {
            BinaryOperator::Equals => CondCode::Equal,
            BinaryOperator::NotEquals => CondCode::NotEqual,
            BinaryOperator::LessThan => CondCode::Below,
            BinaryOperator::GreaterThan => CondCode::Above,
            BinaryOperator::LessThanOrEquals => CondCode::BelowOrEqual,
            _ => CondCode::AboveOrEqual,
        }
    } else {
        match op {
            BinaryOperator::Equals => CondCode::Equal,
            BinaryOperator::NotEquals => CondCode::NotEqual,
            BinaryOperator::LessThan => CondCode::LessThan,
            BinaryOperator::GreaterThan => CondCode::GreaterThan,
            BinaryOperator::LessThanOrEquals => CondCode::LessEqual,
            _ => CondCode::GreaterEqual,
        }
    }
}

fn push_all(out: &mut Vec<AsmAst>, items: &[AsmAst])
    ensures
        final(out)@ == old(out)@ + items@,
{
    let mut i: usize = 0;
    while i < items.len()
        invariant
            0 <= i <= items.len(),
            out@ == old(out)@ + items@.take(i as int),
        decreases items.len() - i,
    {
        out.push(items[i]);
        proof {
            assert(items@.take(i + 1) =~= items@.take(i as int).push(items@[i as int]));
        }
        i += 1;
    }
    proof {
        assert(items@.take(i as int) =~= items@);
    }
}

/// Appends the instructions for `dest = left op right`.
#[verifier::rlimit(30)]
pub fn make_binary_op_instruction(
    out: &mut Vec<AsmAst>,
    dest: Pseudoregister,
    op: BinaryOperator,
    left: Operand,
    right: Operand,
)
    ensures
        final(out)@ == old(out)@ + spec_binary_op(dest, op, left, right),
{
    let t = size_type(left.size());
    let ds = dest.size();
    let ls = left.size();
    let rs = right.size();
    match op {
        BinaryOperator::BitwiseShiftLeft | BinaryOperator::BitwiseShiftRight => {
            if right.is_immediate() {
                push_all(
                    out,
                    &[
                        AsmAst::Mov { size: ds, src: left, dest },
                        AsmAst::Binary { operator: op, size: ds, src: right, dest },
                    ],
                );
            } else {
                push_all(
                    out,
                    &[
                        AsmAst::Mov { size: ds, src: left, dest },
                        AsmAst::Mov { size: rs, src: right, dest: Pseudoregister::Register(Reg::CX, t) },
                        AsmAst::Binary {
                            operator: op,
                            size: ds,
                            src: Operand::Register(Pseudoregister::Register(Reg::CL, Type::Int)),
                            dest,
                        },
                    ],
                );
            }
        },
        BinaryOperator::Addition | BinaryOperator::Subtraction | BinaryOperator::BitwiseAnd
        | BinaryOperator::BitwiseOr | BinaryOperator::BitwiseXor => {
            push_all(
                out,
                &[
                    AsmAst::Mov { size: ds, src: left, dest },
                    AsmAst::Binary { operator: op, size: ds, src: right, dest },
                ],
            );
        },
        BinaryOperator::Multiply => {
            let ax = Pseudoregister::Register(Reg::AX, t);
            push_all(
                out,
                &[
                    AsmAst::Mov { size: ls, src: left, dest: ax },
                    AsmAst::Binary { operator: BinaryOperator::Multiply, size: rs, src: right, dest: ax },
                    AsmAst::Mov { size: ds, src: Operand::Register(ax), dest },
                ],
            );
        },
        BinaryOperator::Divide | BinaryOperator::Modulo => {
            let ax = Pseudoregister::Register(Reg::AX, t);
            if left.is_unsigned() {
                let c = if ls == 4 {
                    Const::ConstUInt(0)
                } else {
                    Const::ConstULong(0)
                };
                push_all(
                    out,
                    &[
                        AsmAst::Mov { size: ls, src: left, dest: ax },
                        AsmAst::Mov { size: ls, src: Operand::Immediate(c), dest: Pseudoregister::Register(Reg::DX, t) },
                    ],
                );
                if right.is_immediate() {
                    push_all(
                        out,
                        &[
                            AsmAst::Mov { size: rs, src: right, dest: Pseudoregister::Register(Reg::R11, t) },
                            AsmAst::Div {
                                size: ls,
                                operand: Operand::Register(Pseudoregister::Register(Reg::R11, t)),
                            },
                        ],
                    );
                } else {
                    push_all(out, &[AsmAst::Div { size: ls, operand: right }]);
                }
            } else {
                push_all(
                    out,
                    &[
                        AsmAst::Mov { size: ls, src: left, dest: ax },
                        AsmAst::Cdq { size: ls },
                        AsmAst::Mov { size: rs, src: right, dest: Pseudoregister::Register(Reg::CX, t) },
                        AsmAst::Idiv { size: rs, operand: Pseudoregister::Register(Reg::CX, t) },
                    ],
                );
            }
            let result = if op == BinaryOperator::Divide {
                Reg::AX
            } else {
                Reg::DX
            };
            push_all(
                out,
                &[AsmAst::Mov { size: ds, src: Operand::Register(Pseudoregister::Register(result, t)), dest }],
            );
        },
        BinaryOperator::Equals | BinaryOperator::NotEquals | BinaryOperator::GreaterThan
        | BinaryOperator::GreaterThanOrEquals | BinaryOperator::LessThan
        | BinaryOperator::LessThanOrEquals => {
            push_all(out, &[AsmAst::Mov { size: ls, src: left, dest: Pseudoregister::Register(Reg::DX, t) }]);
            if rs == 8 && right.is_immediate() {
                push_all(
                    out,
                    &[
                        AsmAst::Mov { size: rs, src: right, dest: Pseudoregister::Register(Reg::R11, Type::Long) },
                        AsmAst::Cmp {
                            size: 8,
                            left: Operand::Register(Pseudoregister::Register(Reg::R11, Type::Long)),
                            right: Operand::Register(Pseudoregister::Register(Reg::DX, Type::Long)),
                        },
                    ],
                );
            } else {
                push_all(
                    out,
                    &[
                        AsmAst::Cmp {
                            size: ls,
                            left: right,
                            right: Operand::Register(Pseudoregister::Register(Reg::DX, t)),
                        },
                    ],
                );
            }
            let code = condition_code(op, right.is_unsigned() || left.is_unsigned());
            let r10 = Pseudoregister::Register(Reg::R10, Type::Int);
            push_all(
                out,
                &[
                    AsmAst::Mov { size: ds, src: Operand::Immediate(Const::ConstInt(0)), dest },
                    AsmAst::SetCC(code),
                    AsmAst::MovAl(r10),
                    AsmAst::Mov { size: 4, src: Operand::Register(r10), dest },
                ],
            );
        },
        _ => {},
    }
}

fn frame_allocation(offset: u64) -> (b: u64)
    requires
        offset <= FRAME_LIMIT,
    ensures
        b == frame_bytes(offset as int),
{
    (offset + 15) / 16 * 16
}

impl TACInstruction {
    /// Appends the x86-64 instructions for this instruction of `function_body`.
#[verifier::rlimit(30)]
    pub fn make_assembly(&self, out: &mut Vec<AsmAst>, function_body: &FunctionBody)
        requires
            function_body.current_offset <= FRAME_LIMIT,
        ensures
            final(out)@ == old(out)@ + spec_tac_to_asm(*self, function_body.current_offset as int),
    {
        match *self {
            TACInstruction::FunctionInstruction { name, global } => {
                push_all(out, &[AsmAst::Function { name, global }]);
            },
            TACInstruction::UnaryOpInstruction { dest, op, operand } => {
                if op == UnaryOperator::LogicalNot {
                    let z = if operand.size() == 8 {
                        Const::ConstLong(0)
                    } else {
                        Const::ConstInt(0)
                    };
                    make_binary_op_instruction(out, dest, BinaryOperator::Equals, operand, Operand::Immediate(z));
                } else {
                    let ds = dest.size();
                    push_all(
                        out,
                        &[
                            AsmAst::Mov { size: ds, src: operand, dest },
                            AsmAst::Unary { operator: op, size: ds, dest },
                        ],
                    );
                }
            },
            TACInstruction::BinaryOpInstruction { dest, op, left, right } => {
                make_binary_op_instruction(out, dest, op, left, right);
            },
            TACInstruction::JumpIfZero { label, operand } => {
                let dx = Pseudoregister::Register(Reg::DX, Type::Int);
                push_all(
                    out,
                    &[
                        AsmAst::Mov { size: 4, src: operand, dest: dx },
                        AsmAst::Testl(dx),
                        AsmAst::JmpCC { condition: CondCode::Equal, label },
                    ],
                );
            },
            TACInstruction::JumpIfNotZero { label, operand } => {
                let dx = Pseudoregister::Register(Reg::DX, Type::Int);
                push_all(
                    out,
                    &[
                        AsmAst::Mov { size: 4, src: operand, dest: dx },
                        AsmAst::Testl(dx),
                        AsmAst::JmpCC { condition: CondCode::NotEqual, label },
                    ],
                );
            },
            TACInstruction::Jump { label } => push_all(out, &[AsmAst::Jmp(label)]),
            TACInstruction::Label { label } => push_all(out, &[AsmAst::Label(label)]),
            TACInstruction::StoreValueInstruction { dest, src } => {
                push_all(out, &[AsmAst::Mov { size: dest.size(), src, dest }]);
            },
            TACInstruction::ReturnInstruction { val } => {
                let vs = val.size();
                push_all(
                    out,
                    &[
                        AsmAst::Mov { size: vs, src: val, dest: Pseudoregister::Register(Reg::AX, size_type(vs)) },
                        AsmAst::Ret,
                    ],
                );
            },
            TACInstruction::AllocateStackInstruction => {
                let bytes = frame_allocation(function_body.current_offset);
                push_all(
                    out,
                    &[
                        AsmAst::Binary {
                            operator: BinaryOperator::Subtraction,
                            size: 8,
                            src: Operand::Immediate(Const::ConstLong(bytes)),
                            dest: Pseudoregister::Register(Reg::SP, Type::Long),
                        },
                    ],
                );
            },
            TACInstruction::FunctionCall(name) => push_all(out, &[AsmAst::Call(name)]),
            TACInstruction::PushArgument(v) => {
                let vs = v.size();
                push_all(
                    out,
                    &[
                        AsmAst::Mov { size: vs, src: v, dest: Pseudoregister::Register(Reg::R10, size_type(vs)) },
                        AsmAst::Push(Operand::Register(Pseudoregister::Register(Reg::R10, Type::Long))),
                    ],
                );
            },
            TACInstruction::AdjustStack(n) => {
                push_all(
                    out,
                    &[
                        AsmAst::Binary {
                            operator: BinaryOperator::Addition,
                            size: 8,
                            src: Operand::Immediate(Const::ConstLong(n)),
                            dest: Pseudoregister::Register(Reg::SP, Type::Long),
                        },
                    ],
                );
            },
            TACInstruction::StaticVariable { name, global, init } => {
                push_all(out, &[AsmAst::Static { size: init.size(), name, global, init }]);
            },
            TACInstruction::SignExtend { dest, src } => {
                let r10i = Pseudoregister::Register(Reg::R10, Type::Int);
                let r10l = Pseudoregister::Register(Reg::R10, Type::Long);
                push_all(
                    out,
                    &[
                        AsmAst::Mov { size: 4, src, dest: r10i },
                        AsmAst::Movsx { src: Operand::Register(r10i), dest: r10l },
                        AsmAst::Mov { size: 8, src: Operand::Register(r10l), dest },
                    ],
                );
            },
            TACInstruction::Truncate { dest, src } => push_all(out, &[AsmAst::Mov { size: 4, src, dest }]),
            TACInstruction::ZeroExtend { dest, src } => push_all(out, &[AsmAst::MovZeroExtend { src, dest }]),
        }
    }
}

fn is_memory(p: Pseudoregister) -> (b: bool)
    ensures
        b == in_memory(p),
{
    match p {
        Pseudoregister::Pseudoregister(..) | Pseudoregister::Data(..) => true,
        Pseudoregister::Register(..) => false,
    }
}

/// Whether `src` and `dest` are both in memory.
pub fn should_split(src: Operand, dest: Pseudoregister) -> (b: bool)
    ensures
        b == spec_should_split(src, dest),
{
    let src_in_memory = match src {
        Operand::Register(p) => is_memory(p),
        Operand::MemoryReference(..) => true,
        Operand::Immediate(_) => false,
    };
    src_in_memory && is_memory(dest)
}

impl AsmAst {
    /// Appends this instruction, split through `r10` where it would have two
    /// memory operands.
    pub fn fix_intermediate(&self, out: &mut Vec<AsmAst>)
        ensures
            final(out)@ == old(out)@ + spec_fix_intermediate(*self),
    {
        match *self {
            AsmAst::Binary { operator, size, src, dest } => {
                if should_split(src, dest) {
                    let r10 = Pseudoregister::Register(Reg::R10, size_type(size));
                    push_all(
                        out,
                        &[
                            AsmAst::Mov { size, src, dest: r10 },
                            AsmAst::Binary { operator, size, src: Operand::Register(r10), dest },
                        ],
                    );
                } else {
                    push_all(out, &[*self]);
                }
            },
            AsmAst::Mov { size, src, dest } => {
                if should_split(src, dest) {
                    let r10 = Pseudoregister::Register(Reg::R10, size_type(size));
                    push_all(
                        out,
                        &[AsmAst::Mov { size, src, dest: r10 }, AsmAst::Mov { size, src: Operand::Register(r10), dest }],
                    );
                } else {
                    push_all(out, &[*self]);
                }
            },
            AsmAst::MovZeroExtend { src, dest } => {
                push_all(
                    out,
                    &[
                        AsmAst::Mov { size: 4, src, dest: Pseudoregister::Register(Reg::R10, Type::Int) },
                        AsmAst::Mov {
                            size: 8,
                            src: Operand::Register(Pseudoregister::Register(Reg::R10, Type::Long)),
                            dest,
                        },
                    ],
                );
            },
            _ => push_all(out, &[*self]),
        }
    }
}

/// Rewrites a whole instruction sequence with `fix_intermediate`.
pub fn assembly_fix(instructions: Vec<AsmAst>) -> (out: Vec<AsmAst>)
    ensures
        out@ == spec_assembly_fix(instructions@),
{
    let mut out: Vec<AsmAst> = Vec::new();
    let mut i: usize = 0;
    while i < instructions.len()
        invariant
            0 <= i <= instructions.len(),
            out@ == spec_assembly_fix(instructions@.take(i as int)),
        decreases instructions.len() - i,
    {
        proof {
            let t = instructions@.take(i + 1);
            assert(t.drop_last() =~= instructions@.take(i as int));
            assert(t.last() == instructions@[i as int]);
        }
        instructions[i].fix_intermediate(&mut out);
        i += 1;
    }
    proof {
        assert(instructions@.take(i as int) =~= instructions@);
    }
    out
}

/// After the fix-up pass no instruction moves or computes from memory to memory.
pub proof fn lemma_fix_intermediate_no_memory_to_memory(a: AsmAst)
    ensures
        forall|j: int| 0 <= j < spec_fix_intermediate(a).len() ==> !memory_to_memory(
            #[trigger] spec_fix_intermediate(a)[j],
        ),
{
}

/// No instruction of the fixed-up sequence moves or computes from memory to
/// memory.
pub proof fn lemma_assembly_fix_no_memory_to_memory(instrs: Seq<AsmAst>)
    ensures
        forall|j: int| 0 <= j < spec_assembly_fix(instrs).len() ==> !memory_to_memory(
            #[trigger] spec_assembly_fix(instrs)[j],
        ),
    decreases instrs.len(),
{
    if instrs.len() > 0 {
        lemma_assembly_fix_no_memory_to_memory(instrs.drop_last());
        lemma_fix_intermediate_no_memory_to_memory(instrs.last());
        let a = spec_assembly_fix(instrs.drop_last());
        let b = spec_fix_intermediate(instrs.last());
        assert forall|j: int| 0 <= j < spec_assembly_fix(instrs).len() implies !memory_to_memory(
            #[trigger] spec_assembly_fix(instrs)[j],
        ) by {
            if j < a.len() {
                assert(spec_assembly_fix(instrs)[j] == a[j]);
            } else {
                assert(spec_assembly_fix(instrs)[j] == b[j - a.len()]);
            }
        }
    }
}


// ---------------------------------------------------------------------------
// What the fix-up keeps: a model of the moves and binary operations.
// ---------------------------------------------------------------------------

/// A place of the machine that holds a 64-bit value: a stack slot, a
/// register, a named object, or a cell at an offset from a register.
pub enum Loc {
    Slot(u64),
    Register(Reg),
    Data(Name),
    Cell(u64, Reg),
    /// What the last comparison compared (`cmp a, b` compares `b` with `a`),
    /// each as an unsigned number, and the width it compared them at: the
    /// part of the flags that the `set` instructions read.
    CompareFirst,
    CompareSecond,
    CompareWidth,
}

/// The place a pseudoregister names; `cl` is the low byte of `rcx`.
pub open spec fn loc(p: Pseudoregister) -> Loc {
    match p {
        Pseudoregister::Pseudoregister(o, _) => Loc::Slot(o),
        Pseudoregister::Register(r, _) => Loc::Register(
            if r is CL {
                Reg::CX
            } else {
                r
            },
        ),
        Pseudoregister::Data(n, _) => Loc::Data(n),
    }
}

/// The number of values an operand of `size` bytes can take.
pub open spec fn width(size: i32) -> int {
    if size == 4 {
        0x1_0000_0000
    } else {
        0x1_0000_0000_0000_0000
    }
}

pub open spec fn const_bits(c: Const) -> int {
    match c {
        Const::ConstInt(v) => v as int,
        Const::ConstLong(v) => v as int,
        Const::ConstUInt(v) => v as int,
        Const::ConstULong(v) => v as int,
    }
}

/// The value an operand reads at `size` bytes, as an unsigned number.
pub open spec fn read(s: spec_fn(Loc) -> int, o: Operand, size: i32) -> int {
    match o {
        Operand::Immediate(c) => const_bits(c) % width(size),
        Operand::Register(p) => s(loc(p)) % width(size),
        Operand::MemoryReference(off, r, _) => s(Loc::Cell(off, r)) % width(size),
    }
}

/// Writing `v` at `size` bytes to place `l`: a register takes the value
/// zero-extended; a place in memory keeps the bytes beyond `size`.
pub open spec fn write(s: spec_fn(Loc) -> int, l: Loc, size: i32, v: int) -> spec_fn(Loc) -> int {
    let new_value = if l is Register {
        v % width(size)
    } else {
        s(l) - s(l) % width(size) + v % width(size)
    };
    |x: Loc| if x == l { new_value } else { s(x) }
}

/// The effect of a move or binary operation; `op` gives what a binary
/// operation computes at a size from its destination and source values.
/// The other instructions are outside this model.
pub open spec fn step(
    s: spec_fn(Loc) -> int,
    a: AsmAst,
    op: spec_fn(BinaryOperator, i32, int, int) -> int,
) -> Option<spec_fn(Loc) -> int> {
    match a {
        AsmAst::Mov { size, src, dest } => Some(write(s, loc(dest), size, read(s, src, size))),
        AsmAst::MovZeroExtend { src, dest } => Some(write(s, loc(dest), 8, read(s, src, 4))),
        AsmAst::Binary { operator, size, src, dest } => Some(
            write(
                s,
                loc(dest),
                size,
                op(operator, size, read(s, Operand::Register(dest), size), read(s, src, size)),
            ),
        ),
        _ => None,
    }
}

/// Running instructions in order, as long as each is in the model.
pub open spec fn run(
    s: spec_fn(Loc) -> int,
    code: Seq<AsmAst>,
    op: spec_fn(BinaryOperator, i32, int, int) -> int,
) -> Option<spec_fn(Loc) -> int>
    decreases code.len(),
{
    if code.len() == 0 {
        Some(s)
    } else {
        match step(s, code[0], op) {
            None => None,
            Some(s1) => run(s1, code.drop_first(), op),
        }
    }
}

/// Two states that hold the same values everywhere but in `r10`.
pub open spec fn agree_but_r10(a: spec_fn(Loc) -> int, b: spec_fn(Loc) -> int) -> bool {
    forall|x: Loc| x != Loc::Register(Reg::R10) ==> #[trigger] a(x) == b(x)
}

proof fn lemma_run_two(
    s: spec_fn(Loc) -> int,
    a: AsmAst,
    b: AsmAst,
    op: spec_fn(BinaryOperator, i32, int, int) -> int,
)
    requires
        step(s, a, op) is Some,
        step(step(s, a, op)->Some_0, b, op) is Some,
    ensures
        run(s, seq![a, b], op) == step(step(s, a, op)->Some_0, b, op),
{
    let c = seq![a, b];
    assert(c[0] == a);
    assert(c.drop_first() =~= seq![b]);
    assert(seq![b].drop_first() =~= Seq::<AsmAst>::empty());
    let s1 = step(s, a, op)->Some_0;
    assert(run(s1, seq![b], op) == run(step(s1, b, op)->Some_0, Seq::<AsmAst>::empty(), op));
}

proof fn lemma_run_one(s: spec_fn(Loc) -> int, a: AsmAst, op: spec_fn(BinaryOperator, i32, int, int) -> int)
    ensures
        run(s, seq![a], op) == step(s, a, op),
{
    assert(seq![a][0] == a);
    assert(seq![a].drop_first() =~= Seq::<AsmAst>::empty());
    if let Some(s1) = step(s, a, op) {
        assert(run(s1, Seq::<AsmAst>::empty(), op) == Some(s1));
    }
}

/// A value read at a size and stored in a register reads back the same.
proof fn lemma_register_read_back(s: spec_fn(Loc) -> int, r: Reg, t: Type, size: i32, v: int)
    requires
        r != Reg::CL,
        0 <= v < width(size),
    ensures
        read(write(s, Loc::Register(r), size, v), Operand::Register(Pseudoregister::Register(r, t)), size) == v,
{
}

/// Rewriting a move or binary operation for the fix-up keeps its effect on
/// every place but the scratch register `r10`, whatever the binary
/// operations compute; every other instruction is left as it is.
pub proof fn lemma_fix_intermediate_keeps_effect(
    a: AsmAst,
    s: spec_fn(Loc) -> int,
    op: spec_fn(BinaryOperator, i32, int, int) -> int,
)
    ensures
        step(s, a, op) is None ==> spec_fix_intermediate(a) == seq![a],
        step(s, a, op) matches Some(t) ==> (run(s, spec_fix_intermediate(a), op) matches Some(u)
            && agree_but_r10(u, t)),
{
    let r10 = Loc::Register(Reg::R10);
    match a {
        AsmAst::Mov { size, src, dest } => {
            if spec_should_split(src, dest) {
                let p = reg(Reg::R10, type_of_size(size));
                let m1 = AsmAst::Mov { size, src, dest: p };
                let m2 = AsmAst::Mov { size, src: Operand::Register(p), dest };
                let v = read(s, src, size);
                let s1 = write(s, r10, size, v);
                lemma_register_read_back(s, Reg::R10, type_of_size(size), size, v);
                lemma_run_two(s, m1, m2, op);
                let u = write(s1, loc(dest), size, v);
                let t = write(s, loc(dest), size, v);
                assert(loc(dest) != r10);
                assert(s1(loc(dest)) == s(loc(dest)));
                assert forall|x: Loc| x != r10 implies #[trigger] u(x) == t(x) by {}
            } else {
                lemma_run_one(s, a, op);
            }
        },
        AsmAst::Binary { operator, size, src, dest } => {
            if spec_should_split(src, dest) {
                let p = reg(Reg::R10, type_of_size(size));
                let m1 = AsmAst::Mov { size, src, dest: p };
                let m2 = AsmAst::Binary { operator, size, src: Operand::Register(p), dest };
                let v = read(s, src, size);
                let s1 = write(s, r10, size, v);
                lemma_register_read_back(s, Reg::R10, type_of_size(size), size, v);
                lemma_run_two(s, m1, m2, op);
                assert(loc(dest) != r10);
                assert(s1(loc(dest)) == s(loc(dest)));
                assert(read(s1, Operand::Register(dest), size) == read(s, Operand::Register(dest), size));
                let w = op(operator, size, read(s, Operand::Register(dest), size), v);
                let u = write(s1, loc(dest), size, w);
                let t = write(s, loc(dest), size, w);
                assert forall|x: Loc| x != r10 implies #[trigger] u(x) == t(x) by {}
            } else {
                lemma_run_one(s, a, op);
            }
        },
        AsmAst::MovZeroExtend { src, dest } => {
            let m1 = AsmAst::Mov { size: 4, src, dest: reg(Reg::R10, Type::Int) };
            let m2 = AsmAst::Mov { size: 8, src: reg_op(Reg::R10, Type::Long), dest };
            let v = read(s, src, 4);
            let s1 = write(s, r10, 4, v);
            lemma_register_read_back(s, Reg::R10, Type::Long, 4, v);
            assert(read(s1, reg_op(Reg::R10, Type::Long), 8) == v);
            lemma_run_two(s, m1, m2, op);
            let u = write(s1, loc(dest), 8, v);
            let t = write(s, loc(dest), 8, v);
            assert forall|x: Loc| x != r10 implies #[trigger] u(x) == t(x) by {
                if x == loc(dest) {
                    if loc(dest) != r10 {
                        assert(s1(loc(dest)) == s(loc(dest)));
                    }
                }
            }
        },
        _ => {},
    }
}


// ---------------------------------------------------------------------------
// Labels and jumps of the assembly.
// ---------------------------------------------------------------------------

/// The label an instruction of the three-address code places, if it is a label.
pub open spec fn tac_label(i: TACInstruction) -> Option<Label> {
    match i {
        TACInstruction::Label { label } => Some(label),
        _ => None,
    }
}

/// The label an instruction defines, if it is a label.
pub open spec fn asm_label(a: AsmAst) -> Option<Label> {
    match a {
        AsmAst::Label(l) => Some(l),
        _ => None,
    }
}

/// The label an instruction jumps to, if it jumps.
pub open spec fn asm_jump(a: AsmAst) -> Option<Label> {
    match a {
        AsmAst::Jmp(l) => Some(l),
        AsmAst::JmpCC { label, .. } => Some(label),
        _ => None,
    }
}

/// Whether the code defines label `l`.
pub open spec fn asm_defines(code: Seq<AsmAst>, l: Label) -> bool {
    exists|j: int| 0 <= j < code.len() && #[trigger] asm_label(code[j]) == Some(l)
}

/// No label is defined twice.
pub open spec fn asm_labels_once(code: Seq<AsmAst>) -> bool {
    forall|i: int, j: int|
        0 <= i < code.len() && 0 <= j < code.len() && i != j && #[trigger] asm_label(code[i]) is Some
            ==> asm_label(code[i]) != #[trigger] asm_label(code[j])
}

/// Every jump goes to a label the code defines.
pub open spec fn asm_jumps_defined(code: Seq<AsmAst>) -> bool {
    forall|j: int| 0 <= j < code.len() && #[trigger] asm_jump(code[j]) is Some ==> asm_defines(
        code,
        asm_jump(code[j])->Some_0,
    )
}

/// Whether some instruction of the three-address code jumps to `l`.
pub open spec fn tac_jumps_to(code: Seq<TACInstruction>, l: Label) -> bool {
    exists|j: int| 0 <= j < code.len() && #[trigger] jump_target(code[j]) == Some(l)
}

/// Whether some instruction of the assembly jumps to `l`.
pub open spec fn asm_jumps_to(code: Seq<AsmAst>, l: Label) -> bool {
    exists|j: int| 0 <= j < code.len() && #[trigger] asm_jump(code[j]) == Some(l)
}

proof fn lemma_binary_op_no_flow(dest: Pseudoregister, op: BinaryOperator, left: Operand, right: Operand)
    ensures
        forall|k: int|
            0 <= k < spec_binary_op(dest, op, left, right).len() ==> asm_label(
                #[trigger] spec_binary_op(dest, op, left, right)[k],
            ) is None && asm_jump(spec_binary_op(dest, op, left, right)[k]) is None,
{
    let x = spec_binary_op(dest, op, left, right);
    assert forall|k: int| 0 <= k < x.len() implies asm_label(#[trigger] x[k]) is None && asm_jump(x[k]) is None by {
    }
}

/// The instructions for one instruction of the three-address code define
/// the label it places, and jump where it jumps, and nothing else.
proof fn lemma_tac_to_asm_flow(i: TACInstruction, frame: int)
    ensures
        forall|k: int|
            0 <= k < spec_tac_to_asm(i, frame).len() && #[trigger] asm_label(spec_tac_to_asm(i, frame)[k])
                is Some ==> tac_label(i) == asm_label(spec_tac_to_asm(i, frame)[k]),
        tac_label(i) matches Some(l) ==> spec_tac_to_asm(i, frame) == seq![AsmAst::Label(l)],
        forall|k: int|
            0 <= k < spec_tac_to_asm(i, frame).len() && #[trigger] asm_jump(spec_tac_to_asm(i, frame)[k])
                is Some ==> jump_target(i) == asm_jump(spec_tac_to_asm(i, frame)[k]),
{
    let x = spec_tac_to_asm(i, frame);
    match i {
        TACInstruction::UnaryOpInstruction { dest, op, operand } => {
            if op == UnaryOperator::LogicalNot {
                lemma_binary_op_no_flow(
                    dest,
                    BinaryOperator::Equals,
                    operand,
                    Operand::Immediate(
                        if operand.spec_size() == 8 {
                            Const::ConstLong(0)
                        } else {
                            Const::ConstInt(0)
                        },
                    ),
                );
            }
        },
        TACInstruction::BinaryOpInstruction { dest, op, left, right } => {
            lemma_binary_op_no_flow(dest, op, left, right);
        },
        _ => {},
    }
}


/// Converting three-address code to assembly defines the labels the code
/// places and jumps only where the code jumps.
pub proof fn lemma_tac_list_flow(code: Seq<TACInstruction>, frame: int)
    ensures
        forall|l: Label|
            #![trigger asm_defines(spec_tac_list_to_asm(code, frame), l)]
            #![trigger places(code, l)]
            asm_defines(spec_tac_list_to_asm(code, frame), l) <==> places(code, l),
        forall|l: Label| #[trigger]
            asm_jumps_to(spec_tac_list_to_asm(code, frame), l) ==> tac_jumps_to(code, l),
    decreases code.len(),
{
    let conv = spec_tac_list_to_asm(code, frame);
    if code.len() > 0 {
        let init = code.drop_last();
        let last = code.last();
        let n = (code.len() - 1) as int;
        lemma_tac_list_flow(init, frame);
        lemma_tac_to_asm_flow(last, frame);
        let a = spec_tac_list_to_asm(init, frame);
        let b = spec_tac_to_asm(last, frame);
        assert(conv == a + b);
        assert(code[n] == last);
        assert forall|k: int| 0 <= k < init.len() implies #[trigger] init[k] == code[k] by {}
        assert forall|l: Label| asm_defines(conv, l) implies places(code, l) by {
            let j = choose|j: int| 0 <= j < conv.len() && #[trigger] asm_label(conv[j]) == Some(l);
            if j < a.len() {
                assert(conv[j] == a[j]);
                assert(asm_defines(a, l));
                let k = choose|k: int| 0 <= k < init.len() && init[k] == (TACInstruction::Label { label: l });
                assert(code[k] == init[k]);
            } else {
                assert(conv[j] == b[j - a.len()]);
                assert(asm_label(b[j - a.len()]) is Some);
                assert(code[n] == (TACInstruction::Label { label: l }));
            }
        }
        assert forall|l: Label| places(code, l) implies asm_defines(conv, l) by {
            let k = choose|k: int| 0 <= k < code.len() && code[k] == (TACInstruction::Label { label: l });
            if k < n {
                assert(init[k] == code[k]);
                assert(places(init, l));
                let j = choose|j: int| 0 <= j < a.len() && #[trigger] asm_label(a[j]) == Some(l);
                assert(conv[j] == a[j]);
            } else {
                assert(tac_label(last) == Some(l));
                assert(b == seq![AsmAst::Label(l)]);
                assert(conv[a.len() as int] == b[0]);
                assert(asm_label(conv[a.len() as int]) == Some(l));
            }
        }
        assert forall|l: Label| asm_jumps_to(conv, l) implies tac_jumps_to(code, l) by {
            let j = choose|j: int| 0 <= j < conv.len() && #[trigger] asm_jump(conv[j]) == Some(l);
            if j < a.len() {
                assert(conv[j] == a[j]);
                assert(asm_jumps_to(a, l));
                let k = choose|k: int| 0 <= k < init.len() && #[trigger] jump_target(init[k]) == Some(l);
                assert(code[k] == init[k]);
            } else {
                assert(conv[j] == b[j - a.len()]);
                assert(asm_jump(b[j - a.len()]) is Some);
                assert(jump_target(code[n]) == Some(l));
            }
        }
    }
}

/// The fix-up rewrites one instruction into instructions that define and
/// jump to the labels the instruction defines and jumps to, and no others.
proof fn lemma_fix_intermediate_flow(a: AsmAst)
    ensures
        forall|k: int|
            0 <= k < spec_fix_intermediate(a).len() && #[trigger] asm_label(spec_fix_intermediate(a)[k]) is Some
                ==> asm_label(spec_fix_intermediate(a)[k]) == asm_label(a),
        asm_label(a) is Some ==> spec_fix_intermediate(a) == seq![a],
        forall|k: int|
            0 <= k < spec_fix_intermediate(a).len() && #[trigger] asm_jump(spec_fix_intermediate(a)[k]) is Some
                ==> asm_jump(spec_fix_intermediate(a)[k]) == asm_jump(a),
{
}

/// The fix-up defines the same labels, jumps only where the code jumped,
/// and keeps labels defined once.
pub proof fn lemma_assembly_fix_flow(code: Seq<AsmAst>)
    ensures
        forall|l: Label|
            #![trigger asm_defines(spec_assembly_fix(code), l)]
            #![trigger asm_defines(code, l)]
            asm_defines(spec_assembly_fix(code), l) <==> asm_defines(code, l),
        forall|l: Label| #[trigger]
            asm_jumps_to(spec_assembly_fix(code), l) ==> asm_jumps_to(code, l),
        asm_labels_once(code) ==> asm_labels_once(spec_assembly_fix(code)),
    decreases code.len(),
{
    let fixed = spec_assembly_fix(code);
    if code.len() > 0 {
        let init = code.drop_last();
        let last = code.last();
        let n = (code.len() - 1) as int;
        lemma_assembly_fix_flow(init);
        lemma_fix_intermediate_flow(last);
        let a = spec_assembly_fix(init);
        let b = spec_fix_intermediate(last);
        assert(fixed == a + b);
        assert(code[n] == last);
        assert forall|k: int| 0 <= k < init.len() implies #[trigger] init[k] == code[k] by {}
        assert forall|l: Label| asm_defines(fixed, l) implies asm_defines(code, l) by {
            let j = choose|j: int| 0 <= j < fixed.len() && #[trigger] asm_label(fixed[j]) == Some(l);
            if j < a.len() {
                assert(fixed[j] == a[j]);
                assert(asm_defines(a, l));
                let k = choose|k: int| 0 <= k < init.len() && #[trigger] asm_label(init[k]) == Some(l);
                assert(code[k] == init[k]);
            } else {
                assert(fixed[j] == b[j - a.len()]);
                assert(asm_label(b[j - a.len()]) is Some);
                assert(asm_label(code[n]) == Some(l));
            }
        }
        assert forall|l: Label| asm_defines(code, l) implies asm_defines(fixed, l) by {
            let k = choose|k: int| 0 <= k < code.len() && #[trigger] asm_label(code[k]) == Some(l);
            if k < n {
                assert(init[k] == code[k]);
                assert(asm_defines(init, l));
                let j = choose|j: int| 0 <= j < a.len() && #[trigger] asm_label(a[j]) == Some(l);
                assert(fixed[j] == a[j]);
            } else {
                assert(b == seq![last]);
                assert(fixed[a.len() as int] == b[0]);
                assert(asm_label(fixed[a.len() as int]) == Some(l));
            }
        }
        assert forall|l: Label| asm_jumps_to(fixed, l) implies asm_jumps_to(code, l) by {
            let j = choose|j: int| 0 <= j < fixed.len() && #[trigger] asm_jump(fixed[j]) == Some(l);
            if j < a.len() {
                assert(fixed[j] == a[j]);
                assert(asm_jumps_to(a, l));
                let k = choose|k: int| 0 <= k < init.len() && #[trigger] asm_jump(init[k]) == Some(l);
                assert(code[k] == init[k]);
            } else {
                assert(fixed[j] == b[j - a.len()]);
                assert(asm_jump(b[j - a.len()]) is Some);
                assert(asm_jump(code[n]) == Some(l));
            }
        }
        if asm_labels_once(code) {
            assert forall|i: int, j: int|
                0 <= i < init.len() && 0 <= j < init.len() && i != j && #[trigger] asm_label(init[i]) is Some
                    implies asm_label(init[i]) != #[trigger] asm_label(init[j]) by {
                assert(init[i] == code[i]);
                assert(init[j] == code[j]);
            }
            assert forall|i: int, j: int|
                0 <= i < fixed.len() && 0 <= j < fixed.len() && i != j && #[trigger] asm_label(fixed[i]) is Some
                    implies asm_label(fixed[i]) != #[trigger] asm_label(fixed[j]) by {
                if i < a.len() && j < a.len() {
                    assert(fixed[i] == a[i]);
                    assert(fixed[j] == a[j]);
                } else if i >= a.len() && j >= a.len() {
                    assert(fixed[i] == b[i - a.len()]);
                    assert(fixed[j] == b[j - a.len()]);
                    if asm_label(fixed[j]) is Some {
                        assert(asm_label(b[i - a.len()]) is Some);
                        assert(b.len() == 1);
                    }
                } else {
                    let (p, q) = if i < a.len() {
                        (i, j)
                    } else {
                        (j, i)
                    };
                    assert(fixed[p] == a[p]);
                    assert(fixed[q] == b[q - a.len()]);
                    if asm_label(fixed[p]) is Some && asm_label(fixed[q]) is Some {
                        let l = asm_label(fixed[q])->Some_0;
                        assert(asm_label(b[q - a.len()]) is Some);
                        assert(asm_label(code[n]) == Some(l));
                        if asm_label(fixed[p]) == Some(l) {
                            assert(asm_defines(a, l));
                            let k = choose|k: int| 0 <= k < init.len() && #[trigger] asm_label(init[k]) == Some(l);
                            assert(code[k] == init[k]);
                        }
                    }
                }
            }
        }
    }
}

/// The fix-up keeps every label defined once and every jump going to a
/// label the code defines.
pub proof fn lemma_assembly_fix_keeps_labels(code: Seq<AsmAst>)
    ensures
        asm_labels_once(code) ==> asm_labels_once(spec_assembly_fix(code)),
        asm_jumps_defined(code) ==> asm_jumps_defined(spec_assembly_fix(code)),
{
    lemma_assembly_fix_flow(code);
    let fixed = spec_assembly_fix(code);
    if asm_jumps_defined(code) {
        assert forall|j: int| 0 <= j < fixed.len() && #[trigger] asm_jump(fixed[j]) is Some implies asm_defines(
            fixed,
            asm_jump(fixed[j])->Some_0,
        ) by {
            let l = asm_jump(fixed[j])->Some_0;
            assert(asm_jumps_to(fixed, l));
            let k = choose|k: int| 0 <= k < code.len() && #[trigger] asm_jump(code[k]) == Some(l);
            assert(asm_defines(code, l));
        }
    }
}


// ---------------------------------------------------------------------------
// What a division computes.
// ---------------------------------------------------------------------------

/// A value of `size` bytes read as a signed (two's complement) number.
pub open spec fn signed_at(v: int, size: i32) -> int {
    if v >= width(size) / 2 {
        v - width(size)
    } else {
        v
    }
}

pub open spec fn magnitude(a: int) -> int {
    if a < 0 {
        -a
    } else {
        a
    }
}

/// The quotient of a division that rounds toward zero, as C and `idiv` do.
#[verifier::opaque]
pub open spec fn quotient_toward_zero(a: int, b: int) -> int {
    if (a >= 0) == (b > 0) {
        magnitude(a) / magnitude(b)
    } else {
        -(magnitude(a) / magnitude(b))
    }
}

/// The remainder that goes with `quotient_toward_zero`.
#[verifier::opaque]
pub open spec fn remainder_toward_zero(a: int, b: int) -> int {
    a - b * quotient_toward_zero(a, b)
}

/// `cdq`/`cqo`: `dx` filled with the sign of `ax`.
pub open spec fn cdq_effect(s: spec_fn(Loc) -> int, size: i32) -> spec_fn(Loc) -> int {
    write(
        s,
        Loc::Register(Reg::DX),
        size,
        if signed_at(s(Loc::Register(Reg::AX)) % width(size), size) < 0 {
            width(size) - 1
        } else {
            0
        },
    )
}

/// `idiv`: the signed number in `dx:ax` divided by the operand, the
/// quotient (rounded toward zero) in `ax` and the remainder in `dx`; a fault
/// on a zero divisor or a quotient out of range.
#[verifier::opaque]
pub open spec fn idiv_effect(s: spec_fn(Loc) -> int, size: i32, operand: Pseudoregister) -> Option<
    spec_fn(Loc) -> int,
> {
    let w = width(size);
    let n = (s(Loc::Register(Reg::DX)) % w) * w + s(Loc::Register(Reg::AX)) % w;
    let num = if n >= w * w / 2 {
        n - w * w
    } else {
        n
    };
    let d = signed_at(read(s, Operand::Register(operand), size), size);
    let q = quotient_toward_zero(num, d);
    if d == 0 || q < -(w / 2) || q >= w / 2 {
        None
    } else {
        Some(
            write(
                write(s, Loc::Register(Reg::AX), size, q),
                Loc::Register(Reg::DX),
                size,
                remainder_toward_zero(num, d),
            ),
        )
    }
}

/// `div`: the same for unsigned numbers.
#[verifier::opaque]
pub open spec fn div_effect(s: spec_fn(Loc) -> int, size: i32, operand: Operand) -> Option<spec_fn(Loc) -> int> {
    let w = width(size);
    let n = (s(Loc::Register(Reg::DX)) % w) * w + s(Loc::Register(Reg::AX)) % w;
    let d = read(s, operand, size);
    if d == 0 || n / d >= w {
        None
    } else {
        Some(write(write(s, Loc::Register(Reg::AX), size, n / d), Loc::Register(Reg::DX), size, n % d))
    }
}

/// The effect of the instructions of a division: moves, `cdq`/`cqo`, `idiv`
/// and `div`. Other instructions are outside this model.
pub open spec fn div_step(s: spec_fn(Loc) -> int, a: AsmAst) -> Option<spec_fn(Loc) -> int> {
    match a {
        AsmAst::Mov { size, src, dest } => Some(write(s, loc(dest), size, read(s, src, size))),
        AsmAst::Cdq { size } => Some(cdq_effect(s, size)),
        AsmAst::Idiv { size, operand } => idiv_effect(s, size, operand),
        AsmAst::Div { size, operand } => div_effect(s, size, operand),
        _ => None,
    }
}

pub open spec fn div_run(s: spec_fn(Loc) -> int, code: Seq<AsmAst>) -> Option<spec_fn(Loc) -> int>
    decreases code.len(),
{
    if code.len() == 0 {
        Some(s)
    } else {
        match div_step(s, code[0]) {
            None => None,
            Some(s1) => div_run(s1, code.drop_first()),
        }
    }
}

proof fn lemma_div_run_step(s: spec_fn(Loc) -> int, code: Seq<AsmAst>, s1: spec_fn(Loc) -> int)
    requires
        code.len() > 0,
        div_step(s, code[0]) == Some(s1),
    ensures
        div_run(s, code) == div_run(s1, code.drop_first()),
{
}

proof fn lemma_div_run_empty(s: spec_fn(Loc) -> int)
    ensures
        div_run(s, Seq::<AsmAst>::empty()) == Some(s),
{
}

/// A value written at `size` bytes reads back as that value (modulo the
/// width), whatever the place held before.
pub proof fn lemma_written_reads_back(s: spec_fn(Loc) -> int, p: Pseudoregister, size: i32, v: int)
    requires
        size == 4 || size == 8,
    ensures
        read(write(s, loc(p), size, v), Operand::Register(p), size) == v % width(size),
{
    let l = loc(p);
    if !(l is Register) {
        let a = s(l);
        if size == 4 {
            assert((a - a % 0x1_0000_0000 + v % 0x1_0000_0000) % 0x1_0000_0000 == v % 0x1_0000_0000) by (
            nonlinear_arith);
        } else {
            assert((a - a % 0x1_0000_0000_0000_0000 + v % 0x1_0000_0000_0000_0000)
                % 0x1_0000_0000_0000_0000 == v % 0x1_0000_0000_0000_0000) by (nonlinear_arith);
        }
    }
}

/// An operand that is not one of the machine's registers.
pub open spec fn off_registers(o: Operand) -> bool {
    !(o matches Operand::Register(Pseudoregister::Register(..)))
}

/// The sign of a value of `size` bytes spread over `dx`, and the number
/// `dx:ax` then holds, read as signed, is the value itself.
proof fn lemma_sign_extended(la: int, size: i32)
    requires
        size == 4 || size == 8,
        0 <= la < width(size),
    ensures
        ({
            let w = width(size);
            let sign = if signed_at(la % w, size) < 0 {
                w - 1
            } else {
                0
            };
            let n = (sign % w) * w + la % w;
            (if n >= w * w / 2 {
                n - w * w
            } else {
                n
            }) == signed_at(la, size)
        }),
{
    let w = width(size);
    assert(la % w == la);
    if size == 4 {
        assert(w == 0x1_0000_0000);
    } else {
        assert(w == 0x1_0000_0000_0000_0000);
    }
    if la >= w / 2 {
        assert((w - 1) % w == w - 1);
        assert((w - 1) * w + la >= w * w / 2) by (nonlinear_arith)
            requires
                w >= 2,
                la >= w / 2,
                w % 2 == 0,
        ;
    } else {
        assert(0int % w == 0);
        assert(la < w * w / 2) by (nonlinear_arith)
            requires
                w >= 2,
                la < w / 2,
                w % 2 == 0,
        ;
    }
}

/// The instructions of a signed division or remainder.
proof fn lemma_signed_division_code(dest: Pseudoregister, op: BinaryOperator, left: Operand, right: Operand)
    requires
        op == BinaryOperator::Divide || op == BinaryOperator::Modulo,
        right.spec_size() == left.spec_size(),
        !left.spec_is_unsigned(),
        dest.spec_size() == left.spec_size(),
    ensures
        ({
            let size = left.spec_size();
            let t = type_of_size(size);
            spec_binary_op(dest, op, left, right) =~= seq![
                AsmAst::Mov { size, src: left, dest: reg(Reg::AX, t) },
                AsmAst::Cdq { size },
                AsmAst::Mov { size, src: right, dest: reg(Reg::CX, t) },
                AsmAst::Idiv { size, operand: reg(Reg::CX, t) },
                AsmAst::Mov {
                    size,
                    src: reg_op(
                        if op == BinaryOperator::Divide {
                            Reg::AX
                        } else {
                            Reg::DX
                        },
                        t,
                    ),
                    dest,
                },
            ]
        }),
{
}

proof fn lemma_div_run_five(
    s: spec_fn(Loc) -> int,
    code: Seq<AsmAst>,
    s1: spec_fn(Loc) -> int,
    s2: spec_fn(Loc) -> int,
    s3: spec_fn(Loc) -> int,
    s4: spec_fn(Loc) -> int,
    s5: spec_fn(Loc) -> int,
)
    requires
        code.len() == 5,
        div_step(s, code[0]) == Some(s1),
        div_step(s1, code[1]) == Some(s2),
        div_step(s2, code[2]) == Some(s3),
        div_step(s3, code[3]) == Some(s4),
        div_step(s4, code[4]) == Some(s5),
    ensures
        div_run(s, code) == Some(s5),
{
    let c1 = code.drop_first();
    let c2 = c1.drop_first();
    let c3 = c2.drop_first();
    let c4 = c3.drop_first();
    assert(c1[0] == code[1]);
    assert(c2[0] == code[2]);
    assert(c3[0] == code[3]);
    assert(c4[0] == code[4]);
    assert(c4.drop_first() =~= Seq::<AsmAst>::empty());
    lemma_div_run_step(s, code, s1);
    lemma_div_run_step(s1, c1, s2);
    lemma_div_run_step(s2, c2, s3);
    lemma_div_run_step(s3, c3, s4);
    lemma_div_run_step(s4, c4, s5);
    lemma_div_run_empty(s5);
}

/// `idiv` after the dividend was sign-extended into `dx:ax`.
proof fn lemma_idiv_after_cdq(s3: spec_fn(Loc) -> int, size: i32, t: Type, la: int, rb: int)
    requires
        size == 4 || size == 8,
        0 <= la < width(size),
        0 <= rb < width(size),
        s3(Loc::Register(Reg::AX)) == la,
        s3(Loc::Register(Reg::DX)) == (if signed_at(la % width(size), size) < 0 {
            width(size) - 1
        } else {
            0
        }),
        s3(Loc::Register(Reg::CX)) == rb,
        signed_at(rb, size) != 0,
        -(width(size) / 2) <= quotient_toward_zero(signed_at(la, size), signed_at(rb, size)) < width(size)
            / 2,
    ensures
        idiv_effect(s3, size, reg(Reg::CX, t)) == Some(
            write(
                write(
                    s3,
                    Loc::Register(Reg::AX),
                    size,
                    quotient_toward_zero(signed_at(la, size), signed_at(rb, size)),
                ),
                Loc::Register(Reg::DX),
                size,
                remainder_toward_zero(signed_at(la, size), signed_at(rb, size)),
            ),
        ),
{
    reveal(idiv_effect);
    lemma_sign_extended(la, size);
    let w = width(size);
    assert(rb % w == rb);
    let sign = if signed_at(la % w, size) < 0 {
        w - 1
    } else {
        0
    };
    assert(sign % w == sign);
    assert(la % w == la);
}

/// The dividend in `ax`, its sign in `dx` and the divisor in `cx`: the
/// first three instructions of a signed division.
proof fn lemma_signed_division_setup(s: spec_fn(Loc) -> int, left: Operand, right: Operand, size: i32, t: Type)
    requires
        size == 4 || size == 8,
        off_registers(left),
        off_registers(right),
    ensures
        ({
            let w = width(size);
            let la = read(s, left, size);
            let rb = read(s, right, size);
            let s1 = write(s, Loc::Register(Reg::AX), size, la);
            let sign = if signed_at(la % w, size) < 0 {
                w - 1
            } else {
                0
            };
            let s2 = write(s1, Loc::Register(Reg::DX), size, sign);
            let s3 = write(s2, Loc::Register(Reg::CX), size, rb);
            &&& div_step(s, AsmAst::Mov { size, src: left, dest: reg(Reg::AX, t) }) == Some(s1)
            &&& div_step(s1, AsmAst::Cdq { size }) == Some(s2)
            &&& div_step(s2, AsmAst::Mov { size, src: right, dest: reg(Reg::CX, t) }) == Some(s3)
            &&& 0 <= la < w
            &&& 0 <= rb < w
            &&& s3(Loc::Register(Reg::AX)) == la
            &&& s3(Loc::Register(Reg::DX)) == sign
            &&& s3(Loc::Register(Reg::CX)) == rb
        }),
{
    let w = width(size);
    let la = read(s, left, size);
    let rb = read(s, right, size);
    let s1 = write(s, Loc::Register(Reg::AX), size, la);
    assert(la % w == la);
    assert(s1(Loc::Register(Reg::AX)) == la);
    let sign = if signed_at(la % w, size) < 0 {
        w - 1
    } else {
        0
    };
    assert(sign % w == sign);
    let s2 = write(s1, Loc::Register(Reg::DX), size, sign);
    assert(read(s2, right, size) == rb);
    assert(rb % w == rb);
}

/// The last instruction of a division: the chosen register moved into the
/// destination.
proof fn lemma_division_result(s4: spec_fn(Loc) -> int, r: Reg, t: Type, dest: Pseudoregister, size: i32)
    requires
        size == 4 || size == 8,
        dest.spec_size() == size,
        r == Reg::AX || r == Reg::DX,
    ensures
        ({
            let v = s4(Loc::Register(r)) % width(size);
            let s5 = write(s4, loc(dest), size, v);
            &&& div_step(s4, AsmAst::Mov { size, src: reg_op(r, t), dest }) == Some(s5)
            &&& read(s5, Operand::Register(dest), size) == v
        }),
{
    let v = s4(Loc::Register(r)) % width(size);
    lemma_written_reads_back(s4, dest, size, v);
    assert(v % width(size) == v);
}

/// A signed division or remainder leaves in its destination the quotient,
/// rounded toward zero, or the remainder of its operands read as signed
/// numbers, whenever the divisor is not zero and the quotient fits.
#[verifier::rlimit(40)]
pub proof fn lemma_signed_division(
    dest: Pseudoregister,
    op: BinaryOperator,
    left: Operand,
    right: Operand,
    s: spec_fn(Loc) -> int,
)
    requires
        op == BinaryOperator::Divide || op == BinaryOperator::Modulo,
        left.spec_size() == 4 || left.spec_size() == 8,
        right.spec_size() == left.spec_size(),
        dest.spec_size() == left.spec_size(),
        !left.spec_is_unsigned(),
        off_registers(left),
        off_registers(right),
        signed_at(read(s, right, left.spec_size()), left.spec_size()) != 0,
        -(width(left.spec_size()) / 2) <= quotient_toward_zero(
            signed_at(read(s, left, left.spec_size()), left.spec_size()),
            signed_at(read(s, right, left.spec_size()), left.spec_size()),
        ) < width(left.spec_size()) / 2,
    ensures
        ({
            let size = left.spec_size();
            let a = signed_at(read(s, left, size), size);
            let b = signed_at(read(s, right, size), size);
            div_run(s, spec_binary_op(dest, op, left, right)) matches Some(s2) && read(
                s2,
                Operand::Register(dest),
                size,
            ) == (if op == BinaryOperator::Divide {
                quotient_toward_zero(a, b)
            } else {
                remainder_toward_zero(a, b)
            }) % width(size)
        }),
{
    let size = left.spec_size();
    let w = width(size);
    let t = type_of_size(size);
    let ax = Loc::Register(Reg::AX);
    let dx = Loc::Register(Reg::DX);
    let la = read(s, left, size);
    let rb = read(s, right, size);
    let a = signed_at(la, size);
    let b = signed_at(rb, size);
    lemma_signed_division_code(dest, op, left, right);
    let code = spec_binary_op(dest, op, left, right);
    lemma_signed_division_setup(s, left, right, size, t);
    let s1 = write(s, ax, size, la);
    let sign = if signed_at(la % w, size) < 0 {
        w - 1
    } else {
        0
    };
    let s2 = write(s1, dx, size, sign);
    let s3 = write(s2, Loc::Register(Reg::CX), size, rb);
    lemma_idiv_after_cdq(s3, size, t, la, rb);
    let q = quotient_toward_zero(a, b);
    let rm = remainder_toward_zero(a, b);
    let s4 = write(write(s3, ax, size, q), dx, size, rm);
    let r = if op == BinaryOperator::Divide {
        Reg::AX
    } else {
        Reg::DX
    };
    lemma_division_result(s4, r, t, dest, size);
    let s5 = write(s4, loc(dest), size, s4(Loc::Register(r)) % w);
    lemma_div_run_five(s, code, s1, s2, s3, s4, s5);
}


proof fn lemma_div_run_four(
    s: spec_fn(Loc) -> int,
    code: Seq<AsmAst>,
    s1: spec_fn(Loc) -> int,
    s2: spec_fn(Loc) -> int,
    s3: spec_fn(Loc) -> int,
    s4: spec_fn(Loc) -> int,
)
    requires
        code.len() == 4,
        div_step(s, code[0]) == Some(s1),
        div_step(s1, code[1]) == Some(s2),
        div_step(s2, code[2]) == Some(s3),
        div_step(s3, code[3]) == Some(s4),
    ensures
        div_run(s, code) == Some(s4),
{
    let c1 = code.drop_first();
    let c2 = c1.drop_first();
    let c3 = c2.drop_first();
    assert(c1[0] == code[1]);
    assert(c2[0] == code[2]);
    assert(c3[0] == code[3]);
    assert(c3.drop_first() =~= Seq::<AsmAst>::empty());
    lemma_div_run_step(s, code, s1);
    lemma_div_run_step(s1, c1, s2);
    lemma_div_run_step(s2, c2, s3);
    lemma_div_run_step(s3, c3, s4);
    lemma_div_run_empty(s4);
}

/// `div` of the unsigned number in `dx:ax`, with `dx` cleared.
proof fn lemma_div_after_clear(s: spec_fn(Loc) -> int, size: i32, operand: Operand, ua: int, ub: int)
    requires
        size == 4 || size == 8,
        0 <= ua < width(size),
        s(Loc::Register(Reg::AX)) == ua,
        s(Loc::Register(Reg::DX)) == 0,
        read(s, operand, size) == ub,
        0 < ub,
    ensures
        div_effect(s, size, operand) == Some(
            write(write(s, Loc::Register(Reg::AX), size, ua / ub), Loc::Register(Reg::DX), size, ua % ub),
        ),
{
    reveal(div_effect);
    let w = width(size);
    assert(ua % w == ua);
    assert(0int % w == 0);
    assert(ua / ub <= ua) by (nonlinear_arith)
        requires
            0 <= ua,
            0 < ub,
    ;
}

/// The zero an unsigned division clears `dx` with.
pub open spec fn unsigned_zero(size: i32) -> Const {
    if size == 4 {
        Const::ConstUInt(0)
    } else {
        Const::ConstULong(0)
    }
}

/// The instructions of an unsigned division or remainder.
proof fn lemma_unsigned_division_code(dest: Pseudoregister, op: BinaryOperator, left: Operand, right: Operand)
    requires
        op == BinaryOperator::Divide || op == BinaryOperator::Modulo,
        left.spec_is_unsigned(),
    ensures
        ({
            let size = left.spec_size();
            let t = type_of_size(size);
            let head = seq![
                AsmAst::Mov { size, src: left, dest: reg(Reg::AX, t) },
                AsmAst::Mov { size, src: Operand::Immediate(unsigned_zero(size)), dest: reg(Reg::DX, t) },
            ];
            let last = seq![
                AsmAst::Mov {
                    size: dest.spec_size(),
                    src: reg_op(
                        if op == BinaryOperator::Divide {
                            Reg::AX
                        } else {
                            Reg::DX
                        },
                        t,
                    ),
                    dest,
                },
            ];
            spec_binary_op(dest, op, left, right) =~= head + (if right is Immediate {
                seq![
                    AsmAst::Mov { size: right.spec_size(), src: right, dest: reg(Reg::R11, t) },
                    AsmAst::Div { size, operand: reg_op(Reg::R11, t) },
                ]
            } else {
                seq![AsmAst::Div { size, operand: right }]
            }) + last
        }),
{
}

/// The dividend in `ax` and `dx` cleared: the first two instructions of an
/// unsigned division.
proof fn lemma_unsigned_division_setup(s: spec_fn(Loc) -> int, left: Operand, right: Operand, size: i32, t: Type)
    requires
        size == 4 || size == 8,
        off_registers(left),
        off_registers(right),
    ensures
        ({
            let w = width(size);
            let ua = read(s, left, size);
            let s1 = write(s, Loc::Register(Reg::AX), size, ua);
            let s2 = write(s1, Loc::Register(Reg::DX), size, 0);
            &&& div_step(s, AsmAst::Mov { size, src: left, dest: reg(Reg::AX, t) }) == Some(s1)
            &&& div_step(
                s1,
                AsmAst::Mov { size, src: Operand::Immediate(unsigned_zero(size)), dest: reg(Reg::DX, t) },
            ) == Some(s2)
            &&& 0 <= ua < w
            &&& s2(Loc::Register(Reg::AX)) == ua
            &&& s2(Loc::Register(Reg::DX)) == 0
            &&& read(s2, right, size) == read(s, right, size)
        }),
{
    let w = width(size);
    let ua = read(s, left, size);
    assert(ua % w == ua);
    assert(0int % w == 0);
}

/// `div` by an operand that was first moved into `r11`.
proof fn lemma_unsigned_division_by_immediate(s2: spec_fn(Loc) -> int, right: Operand, size: i32, t: Type, ua: int)
    requires
        size == 4 || size == 8,
        right.spec_size() == size,
        0 <= ua < width(size),
        s2(Loc::Register(Reg::AX)) == ua,
        s2(Loc::Register(Reg::DX)) == 0,
        read(s2, right, size) != 0,
    ensures
        ({
            let ub = read(s2, right, size);
            let s3 = write(s2, Loc::Register(Reg::R11), size, ub);
            let s4 = write(write(s3, Loc::Register(Reg::AX), size, ua / ub), Loc::Register(Reg::DX), size, ua % ub);
            &&& div_step(s2, AsmAst::Mov { size, src: right, dest: reg(Reg::R11, t) }) == Some(s3)
            &&& div_step(s3, AsmAst::Div { size, operand: reg_op(Reg::R11, t) }) == Some(s4)
            &&& s4(Loc::Register(Reg::AX)) % width(size) == ua / ub
            &&& s4(Loc::Register(Reg::DX)) % width(size) == ua % ub
        }),
{
    let w = width(size);
    let ub = read(s2, right, size);
    assert(0 <= ub < w);
    assert(ub % w == ub);
    let s3 = write(s2, Loc::Register(Reg::R11), size, ub);
    assert(read(s3, reg_op(Reg::R11, t), size) == ub);
    lemma_div_after_clear(s3, size, reg_op(Reg::R11, t), ua, ub);
    assert(ua / ub <= ua && ua % ub < ub && 0 <= ua / ub && 0 <= ua % ub) by (nonlinear_arith)
        requires
            0 <= ua,
            0 < ub,
    ;
}

/// `div` by an operand read where it stands.
proof fn lemma_unsigned_division_in_place(s2: spec_fn(Loc) -> int, right: Operand, size: i32, ua: int)
    requires
        size == 4 || size == 8,
        0 <= ua < width(size),
        s2(Loc::Register(Reg::AX)) == ua,
        s2(Loc::Register(Reg::DX)) == 0,
        read(s2, right, size) != 0,
    ensures
        ({
            let ub = read(s2, right, size);
            let s3 = write(write(s2, Loc::Register(Reg::AX), size, ua / ub), Loc::Register(Reg::DX), size, ua % ub);
            &&& div_step(s2, AsmAst::Div { size, operand: right }) == Some(s3)
            &&& s3(Loc::Register(Reg::AX)) % width(size) == ua / ub
            &&& s3(Loc::Register(Reg::DX)) % width(size) == ua % ub
        }),
{
    let w = width(size);
    let ub = read(s2, right, size);
    assert(0 <= ub < w);
    lemma_div_after_clear(s2, size, right, ua, ub);
    assert(ua / ub <= ua && ua % ub < ub && 0 <= ua / ub && 0 <= ua % ub) by (nonlinear_arith)
        requires
            0 <= ua,
            0 < ub,
    ;
}

/// An unsigned division or remainder leaves in its destination the quotient
/// or the remainder of its operands read as unsigned numbers, whenever the
/// divisor is not zero.
#[verifier::rlimit(40)]
pub proof fn lemma_unsigned_division(
    dest: Pseudoregister,
    op: BinaryOperator,
    left: Operand,
    right: Operand,
    s: spec_fn(Loc) -> int,
)
    requires
        op == BinaryOperator::Divide || op == BinaryOperator::Modulo,
        left.spec_size() == 4 || left.spec_size() == 8,
        right.spec_size() == left.spec_size(),
        dest.spec_size() == left.spec_size(),
        left.spec_is_unsigned(),
        off_registers(left),
        off_registers(right),
        read(s, right, left.spec_size()) != 0,
    ensures
        ({
            let size = left.spec_size();
            let ua = read(s, left, size);
            let ub = read(s, right, size);
            div_run(s, spec_binary_op(dest, op, left, right)) matches Some(s2) && read(
                s2,
                Operand::Register(dest),
                size,
            ) == (if op == BinaryOperator::Divide {
                ua / ub
            } else {
                ua % ub
            })
        }),
{
    let size = left.spec_size();
    let w = width(size);
    let t = type_of_size(size);
    let ua = read(s, left, size);
    let ub = read(s, right, size);
    lemma_unsigned_division_code(dest, op, left, right);
    lemma_unsigned_division_setup(s, left, right, size, t);
    let code = spec_binary_op(dest, op, left, right);
    let s1 = write(s, Loc::Register(Reg::AX), size, ua);
    let s2 = write(s1, Loc::Register(Reg::DX), size, 0);
    let r = if op == BinaryOperator::Divide {
        Reg::AX
    } else {
        Reg::DX
    };
    if right is Immediate {
        lemma_unsigned_division_by_immediate(s2, right, size, t, ua);
        let s3 = write(s2, Loc::Register(Reg::R11), size, ub);
        let s4 = write(write(s3, Loc::Register(Reg::AX), size, ua / ub), Loc::Register(Reg::DX), size, ua % ub);
        lemma_division_result(s4, r, t, dest, size);
        let s5 = write(s4, loc(dest), size, s4(Loc::Register(r)) % w);
        lemma_div_run_five(s, code, s1, s2, s3, s4, s5);
    } else {
        lemma_unsigned_division_in_place(s2, right, size, ua);
        let s3 = write(write(s2, Loc::Register(Reg::AX), size, ua / ub), Loc::Register(Reg::DX), size, ua % ub);
        lemma_division_result(s3, r, t, dest, size);
        let s4 = write(s3, loc(dest), size, s3(Loc::Register(r)) % w);
        lemma_div_run_four(s, code, s1, s2, s3, s4);
    }
}


// ---------------------------------------------------------------------------
// What the other arithmetic operators compute.
// ---------------------------------------------------------------------------

proof fn lemma_run_step(
    s: spec_fn(Loc) -> int,
    code: Seq<AsmAst>,
    s1: spec_fn(Loc) -> int,
    op: spec_fn(BinaryOperator, i32, int, int) -> int,
)
    requires
        code.len() > 0,
        step(s, code[0], op) == Some(s1),
    ensures
        run(s, code, op) == run(s1, code.drop_first(), op),
{
}

proof fn lemma_run_done(s: spec_fn(Loc) -> int, op: spec_fn(BinaryOperator, i32, int, int) -> int)
    ensures
        run(s, Seq::<AsmAst>::empty(), op) == Some(s),
{
}

/// An addition, subtraction, multiplication or bitwise operation leaves in
/// its destination what the operator computes from the left operand and the
/// right one, in that order, at the operands' width: for every meaning `op`
/// of the operators, the selected instructions compute `op` of the operands.
#[verifier::rlimit(30)]
pub proof fn lemma_arithmetic_operands_in_order(
    dest: Pseudoregister,
    operator: BinaryOperator,
    left: Operand,
    right: Operand,
    s: spec_fn(Loc) -> int,
    op: spec_fn(BinaryOperator, i32, int, int) -> int,
)
    requires
        operator == BinaryOperator::Addition || operator == BinaryOperator::Subtraction || operator
            == BinaryOperator::Multiply || operator == BinaryOperator::BitwiseAnd || operator
            == BinaryOperator::BitwiseOr || operator == BinaryOperator::BitwiseXor,
        left.spec_size() == 4 || left.spec_size() == 8,
        right.spec_size() == left.spec_size(),
        dest.spec_size() == left.spec_size(),
        off_registers(left),
        off_registers(right),
        !(right matches Operand::Register(p) && loc(p) == loc(dest)),
    ensures
        ({
            let size = left.spec_size();
            run(s, spec_binary_op(dest, operator, left, right), op) matches Some(s2) && read(
                s2,
                Operand::Register(dest),
                size,
            ) == op(operator, size, read(s, left, size), read(s, right, size)) % width(size)
        }),
{
    let size = left.spec_size();
    let w = width(size);
    let t = type_of_size(size);
    let la = read(s, left, size);
    let rb = read(s, right, size);
    let code = spec_binary_op(dest, operator, left, right);
    assert(0 <= la < w && la % w == la);
    if operator == BinaryOperator::Multiply {
        let ax = Loc::Register(Reg::AX);
        let i1 = AsmAst::Mov { size, src: left, dest: reg(Reg::AX, t) };
        let i2 = AsmAst::Binary { operator, size, src: right, dest: reg(Reg::AX, t) };
        let i3 = AsmAst::Mov { size, src: reg_op(Reg::AX, t), dest };
        assert(code =~= seq![i1, i2, i3]);
        let s1 = write(s, ax, size, la);
        assert(step(s, i1, op) == Some(s1));
        assert(read(s1, right, size) == rb);
        assert(read(s1, reg_op(Reg::AX, t), size) == la);
        let v = op(operator, size, la, rb);
        let s2 = write(s1, ax, size, v);
        assert(step(s1, i2, op) == Some(s2));
        assert(read(s2, reg_op(Reg::AX, t), size) == v % w);
        let s3 = write(s2, loc(dest), size, v % w);
        assert(step(s2, i3, op) == Some(s3));
        lemma_written_reads_back(s2, dest, size, v % w);
        assert((v % w) % w == v % w);
        let c1 = code.drop_first();
        let c2 = c1.drop_first();
        assert(c1[0] == i2);
        assert(c2[0] == i3);
        assert(c2.drop_first() =~= Seq::<AsmAst>::empty());
        lemma_run_step(s, code, s1, op);
        lemma_run_step(s1, c1, s2, op);
        lemma_run_step(s2, c2, s3, op);
        lemma_run_done(s3, op);
    } else {
        let i1 = AsmAst::Mov { size, src: left, dest };
        let i2 = AsmAst::Binary { operator, size, src: right, dest };
        assert(code =~= seq![i1, i2]);
        let s1 = write(s, loc(dest), size, la);
        assert(step(s, i1, op) == Some(s1));
        lemma_written_reads_back(s, dest, size, la);
        assert(read(s1, Operand::Register(dest), size) == la);
        assert(read(s1, right, size) == rb);
        let v = op(operator, size, la, rb);
        let s2 = write(s1, loc(dest), size, v);
        assert(step(s1, i2, op) == Some(s2));
        lemma_written_reads_back(s1, dest, size, v);
        let c1 = code.drop_first();
        assert(c1[0] == i2);
        assert(c1.drop_first() =~= Seq::<AsmAst>::empty());
        lemma_run_step(s, code, s1, op);
        lemma_run_step(s1, c1, s2, op);
        lemma_run_done(s2, op);
    }
}


// ---------------------------------------------------------------------------
// What a comparison computes.
// ---------------------------------------------------------------------------

/// A place set to a value, as a whole.
pub open spec fn set_place(s: spec_fn(Loc) -> int, l: Loc, v: int) -> spec_fn(Loc) -> int {
    |x: Loc| if x == l { v } else { s(x) }
}

/// Whether a condition holds of the compared values `x` (compared) and `y`
/// (compared with) at width `w`.
pub open spec fn condition_holds(c: CondCode, x: int, y: int, w: int) -> bool {
    let sx = if x >= w / 2 { x - w } else { x };
    let sy = if y >= w / 2 { y - w } else { y };
    match c {
        CondCode::Equal => x == y,
        CondCode::NotEqual => x != y,
        CondCode::GreaterThan => sx > sy,
        CondCode::LessThan => sx < sy,
        CondCode::GreaterEqual => sx >= sy,
        CondCode::LessEqual => sx <= sy,
        CondCode::Above => x > y,
        CondCode::AboveOrEqual => x >= y,
        CondCode::Below => x < y,
        CondCode::BelowOrEqual => x <= y,
    }
}

/// The effect of the instructions of a comparison: moves; `cmp a, b`, which
/// records `b` and `a` for the flags; `set`, which puts into the low byte of
/// `ax` whether its condition holds; and `movzbl %al`. Other instructions are
/// outside this model.
pub open spec fn cmp_step(s: spec_fn(Loc) -> int, a: AsmAst) -> Option<spec_fn(Loc) -> int> {
    match a {
        AsmAst::Mov { size, src, dest } => Some(write(s, loc(dest), size, read(s, src, size))),
        AsmAst::Cmp { size, left, right } => Some(
            set_place(
                set_place(
                    set_place(s, Loc::CompareFirst, read(s, right, size)),
                    Loc::CompareSecond,
                    read(s, left, size),
                ),
                Loc::CompareWidth,
                width(size),
            ),
        ),
        AsmAst::SetCC(c) => {
            let ax = s(Loc::Register(Reg::AX));
            let bit = if condition_holds(c, s(Loc::CompareFirst), s(Loc::CompareSecond), s(Loc::CompareWidth)) {
                1int
            } else {
                0int
            };
            Some(set_place(s, Loc::Register(Reg::AX), ax - ax % 256 + bit))
        },
        AsmAst::MovAl(dest) => Some(write(s, loc(dest), 4, s(Loc::Register(Reg::AX)) % 256)),
        _ => None,
    }
}

pub open spec fn cmp_run(s: spec_fn(Loc) -> int, code: Seq<AsmAst>) -> Option<spec_fn(Loc) -> int>
    decreases code.len(),
{
    if code.len() == 0 {
        Some(s)
    } else {
        match cmp_step(s, code[0]) {
            None => None,
            Some(s1) => cmp_run(s1, code.drop_first()),
        }
    }
}

proof fn lemma_cmp_run_step(s: spec_fn(Loc) -> int, code: Seq<AsmAst>, s1: spec_fn(Loc) -> int)
    requires
        code.len() > 0,
        cmp_step(s, code[0]) == Some(s1),
    ensures
        cmp_run(s, code) == cmp_run(s1, code.drop_first()),
{
}

proof fn lemma_cmp_run_done(s: spec_fn(Loc) -> int)
    ensures
        cmp_run(s, Seq::<AsmAst>::empty()) == Some(s),
{
}

/// What C's comparison operator says of two values of one size, read as
/// unsigned numbers when `unsigned` and as signed ones otherwise.
pub open spec fn c_comparison(op: BinaryOperator, x: int, y: int, size: i32, unsigned: bool) -> bool {
    let a = if unsigned {
        x
    } else {
        signed_at(x, size)
    };
    let b = if unsigned {
        y
    } else {
        signed_at(y, size)
    };
    match op {
        BinaryOperator::Equals => a == b,
        BinaryOperator::NotEquals => a != b,
        BinaryOperator::LessThan => a < b,
        BinaryOperator::GreaterThan => a > b,
        BinaryOperator::LessThanOrEquals => a <= b,
        _ => a >= b,
    }
}

/// The condition the selected `set` instruction tests decides the
/// comparison as C does.
proof fn lemma_condition_code_decides(op: BinaryOperator, x: int, y: int, size: i32, unsigned: bool)
    requires
        is_comparison(op),
        size == 4 || size == 8,
        0 <= x < width(size),
        0 <= y < width(size),
    ensures
        condition_holds(
            if unsigned {
                unsigned_code(op)
            } else {
                signed_code(op)
            },
            x,
            y,
            width(size),
        ) == c_comparison(op, x, y, size, unsigned),
{
}

/// The instructions of a comparison up to the recording of the compared
/// values, and where they leave those values.
proof fn lemma_comparison_setup(
    s: spec_fn(Loc) -> int,
    left: Operand,
    right: Operand,
    size: i32,
    t: Type,
    compare: Seq<AsmAst>,
)
    requires
        size == 4 || size == 8,
        right.spec_size() == size,
        off_registers(left),
        off_registers(right),
        compare == (if right.spec_size() == 8 && right is Immediate {
            seq![
                AsmAst::Mov { size: right.spec_size(), src: right, dest: reg(Reg::R11, Type::Long) },
                AsmAst::Cmp { size: 8, left: reg_op(Reg::R11, Type::Long), right: reg_op(Reg::DX, Type::Long) },
            ]
        } else {
            seq![AsmAst::Cmp { size, left: right, right: reg_op(Reg::DX, t) }]
        }),
        t == type_of_size(size),
    ensures
        cmp_run(s, seq![AsmAst::Mov { size, src: left, dest: reg(Reg::DX, t) }] + compare) matches Some(sc) && sc(
            Loc::CompareFirst,
        ) == read(s, left, size) && sc(Loc::CompareSecond) == read(s, right, size) && sc(Loc::CompareWidth)
            == width(size),
{
    let w = width(size);
    let la = read(s, left, size);
    let rb = read(s, right, size);
    let dx = Loc::Register(Reg::DX);
    let i1 = AsmAst::Mov { size, src: left, dest: reg(Reg::DX, t) };
    let code = seq![i1] + compare;
    assert(code[0] == i1);
    assert(la % w == la);
    let s1 = write(s, dx, size, la);
    assert(cmp_step(s, i1) == Some(s1));
    assert(read(s1, right, size) == rb);
    assert(rb % w == rb);
    lemma_cmp_run_step(s, code, s1);
    let c1 = code.drop_first();
    assert(c1 =~= compare);
    if right.spec_size() == 8 && right is Immediate {
        let r11 = Loc::Register(Reg::R11);
        let i2 = AsmAst::Mov { size: 8, src: right, dest: reg(Reg::R11, Type::Long) };
        let i3 = AsmAst::Cmp { size: 8, left: reg_op(Reg::R11, Type::Long), right: reg_op(Reg::DX, Type::Long) };
        let s2 = write(s1, r11, 8, rb);
        assert(cmp_step(s1, i2) == Some(s2));
        assert(read(s2, reg_op(Reg::R11, Type::Long), 8) == rb);
        assert(read(s2, reg_op(Reg::DX, Type::Long), 8) == la);
        let s3 = set_place(
            set_place(set_place(s2, Loc::CompareFirst, la), Loc::CompareSecond, rb),
            Loc::CompareWidth,
            width(8),
        );
        assert(cmp_step(s2, i3) == Some(s3));
        lemma_cmp_run_step(s1, c1, s2);
        let c2 = c1.drop_first();
        assert(c2 =~= seq![i3]);
        lemma_cmp_run_step(s2, c2, s3);
        assert(c2.drop_first() =~= Seq::<AsmAst>::empty());
        lemma_cmp_run_done(s3);
    } else {
        let i2 = AsmAst::Cmp { size, left: right, right: reg_op(Reg::DX, t) };
        assert(read(s1, reg_op(Reg::DX, t), size) == la);
        let s2 = set_place(
            set_place(set_place(s1, Loc::CompareFirst, la), Loc::CompareSecond, rb),
            Loc::CompareWidth,
            w,
        );
        assert(cmp_step(s1, i2) == Some(s2));
        lemma_cmp_run_step(s1, c1, s2);
        assert(c1.drop_first() =~= Seq::<AsmAst>::empty());
        lemma_cmp_run_done(s2);
    }
}

/// The end of a comparison: the destination cleared, the condition set in
/// `al`, moved through `r10d` into the destination.
proof fn lemma_comparison_result(sc: spec_fn(Loc) -> int, dest: Pseudoregister, code: CondCode)
    requires
        dest.spec_size() == 4,
    ensures
        cmp_run(
            sc,
            seq![
                AsmAst::Mov { size: 4, src: Operand::Immediate(Const::ConstInt(0)), dest },
                AsmAst::SetCC(code),
                AsmAst::MovAl(reg(Reg::R10, Type::Int)),
                AsmAst::Mov { size: 4, src: reg_op(Reg::R10, Type::Int), dest },
            ],
        ) matches Some(s2) && read(s2, Operand::Register(dest), 4) == (if condition_holds(
            code,
            sc(Loc::CompareFirst),
            sc(Loc::CompareSecond),
            sc(Loc::CompareWidth),
        ) {
            1int
        } else {
            0int
        }),
{
    let w = width(4);
    let ax = Loc::Register(Reg::AX);
    let r10 = Loc::Register(Reg::R10);
    let i1 = AsmAst::Mov { size: 4, src: Operand::Immediate(Const::ConstInt(0)), dest };
    let i2 = AsmAst::SetCC(code);
    let i3 = AsmAst::MovAl(reg(Reg::R10, Type::Int));
    let i4 = AsmAst::Mov { size: 4, src: reg_op(Reg::R10, Type::Int), dest };
    let c = seq![i1, i2, i3, i4];
    let bit = if condition_holds(code, sc(Loc::CompareFirst), sc(Loc::CompareSecond), sc(Loc::CompareWidth)) {
        1int
    } else {
        0int
    };
    let s1 = write(sc, loc(dest), 4, 0);
    assert(cmp_step(sc, i1) == Some(s1));
    assert(s1(Loc::CompareFirst) == sc(Loc::CompareFirst));
    assert(s1(Loc::CompareSecond) == sc(Loc::CompareSecond));
    assert(s1(Loc::CompareWidth) == sc(Loc::CompareWidth));
    let a = s1(ax);
    let s2 = set_place(s1, ax, a - a % 256 + bit);
    assert(cmp_step(s1, i2) == Some(s2));
    assert((a - a % 256 + bit) % 256 == bit) by (nonlinear_arith)
        requires
            bit == 0 || bit == 1,
    ;
    let s3 = write(s2, r10, 4, bit);
    assert(cmp_step(s2, i3) == Some(s3));
    assert(read(s3, reg_op(Reg::R10, Type::Int), 4) == bit);
    let s4 = write(s3, loc(dest), 4, bit);
    assert(cmp_step(s3, i4) == Some(s4));
    lemma_written_reads_back(s3, dest, 4, bit);
    let c1 = c.drop_first();
    let c2 = c1.drop_first();
    let c3 = c2.drop_first();
    assert(c[0] == i1);
    assert(c1[0] == i2);
    assert(c2[0] == i3);
    assert(c3[0] == i4);
    assert(c3.drop_first() =~= Seq::<AsmAst>::empty());
    lemma_cmp_run_step(sc, c, s1);
    lemma_cmp_run_step(s1, c1, s2);
    lemma_cmp_run_step(s2, c2, s3);
    lemma_cmp_run_step(s3, c3, s4);
    lemma_cmp_run_done(s4);
}

proof fn lemma_cmp_run_append(s: spec_fn(Loc) -> int, a: Seq<AsmAst>, b: Seq<AsmAst>)
    requires
        cmp_run(s, a) is Some,
    ensures
        cmp_run(s, a + b) == cmp_run(cmp_run(s, a)->Some_0, b),
    decreases a.len(),
{
    if a.len() == 0 {
        assert(a + b =~= b);
    } else {
        let s1 = cmp_step(s, a[0])->Some_0;
        assert((a + b)[0] == a[0]);
        assert((a + b).drop_first() =~= a.drop_first() + b);
        lemma_cmp_run_append(s1, a.drop_first(), b);
    }
}

/// A comparison leaves 1 in its destination when C's comparison of its
/// operands holds, read as unsigned numbers if either operand is unsigned
/// and as signed ones otherwise, and 0 when it does not.
#[verifier::rlimit(30)]
pub proof fn lemma_comparison_result_is_c_comparison(
    dest: Pseudoregister,
    op: BinaryOperator,
    left: Operand,
    right: Operand,
    s: spec_fn(Loc) -> int,
)
    requires
        is_comparison(op),
        left.spec_size() == 4 || left.spec_size() == 8,
        right.spec_size() == left.spec_size(),
        dest.spec_size() == 4,
        off_registers(left),
        off_registers(right),
    ensures
        ({
            let size = left.spec_size();
            cmp_run(s, spec_binary_op(dest, op, left, right)) matches Some(s2) && read(
                s2,
                Operand::Register(dest),
                4,
            ) == (if c_comparison(
                op,
                read(s, left, size),
                read(s, right, size),
                size,
                left.spec_is_unsigned() || right.spec_is_unsigned(),
            ) {
                1int
            } else {
                0int
            })
        }),
{
    let size = left.spec_size();
    let t = type_of_size(size);
    let unsigned = left.spec_is_unsigned() || right.spec_is_unsigned();
    let compare = if right.spec_size() == 8 && right is Immediate {
        seq![
            AsmAst::Mov { size: right.spec_size(), src: right, dest: reg(Reg::R11, Type::Long) },
            AsmAst::Cmp { size: 8, left: reg_op(Reg::R11, Type::Long), right: reg_op(Reg::DX, Type::Long) },
        ]
    } else {
        seq![AsmAst::Cmp { size, left: right, right: reg_op(Reg::DX, t) }]
    };
    let cc = if unsigned {
        unsigned_code(op)
    } else {
        signed_code(op)
    };
    let head = seq![AsmAst::Mov { size, src: left, dest: reg(Reg::DX, t) }] + compare;
    let tail = seq![
        AsmAst::Mov { size: 4, src: Operand::Immediate(Const::ConstInt(0)), dest },
        AsmAst::SetCC(cc),
        AsmAst::MovAl(reg(Reg::R10, Type::Int)),
        AsmAst::Mov { size: 4, src: reg_op(Reg::R10, Type::Int), dest },
    ];
    assert(spec_binary_op(dest, op, left, right) =~= head + tail);
    lemma_comparison_setup(s, left, right, size, t, compare);
    let sc = cmp_run(s, head)->Some_0;
    lemma_cmp_run_append(s, head, tail);
    lemma_comparison_result(sc, dest, cc);
    let w = width(size);
    assert(0 <= read(s, left, size) < w);
    assert(0 <= read(s, right, size) < w);
    lemma_condition_code_decides(op, read(s, left, size), read(s, right, size), size, unsigned);
}

} // verus!
