use crate::lexer::{BinaryOperator, LiteralSuffix, StorageClass, Type, UnaryOperator};
use vstd::prelude::*;

verus! {

/// A name in the program. `Source(i)` is a name as written (entry `i` of the
/// name table). Variable resolution renames block-scope variables to
/// `Local` (rendered `function::name::layer`) and static locals to
/// `StaticLocal` (rendered `function.name`), so that every name is unique.
#[derive(Debug, Clone, Copy, PartialEq, Eq, Hash, Structural)]
pub enum Name {
    Source(usize),
    Local { function: usize, name: usize, layer: u64 },
    StaticLocal { function: usize, name: usize },
}

/// A constant, with its C type.
#[derive(Debug, Clone, Copy, PartialEq, Eq, Hash, Structural)]
pub enum Const {
    ConstInt(u32),
    ConstLong(u64),
    ConstUInt(u32),
    ConstULong(u64),
}

impl Const {
    pub open spec fn spec_size(&self) -> i32 {
        match self {
            Const::ConstInt(_) | Const::ConstUInt(_) => 4,
            Const::ConstLong(_) | Const::ConstULong(_) => 8,
        }
    }

    /// Size in bytes.
    pub fn size(&self) -> (s: i32)
        ensures
            s == self.spec_size(),
    {
        match self {
            Const::ConstInt(_) | Const::ConstUInt(_) => 4,
            Const::ConstLong(_) | Const::ConstULong(_) => 8,
        }
    }

    pub open spec fn spec_type(&self) -> Type {
        match self {
            Const::ConstInt(_) => Type::Int,
            Const::ConstLong(_) => Type::Long,
            Const::ConstUInt(_) => Type::UInt,
            Const::ConstULong(_) => Type::ULong,
        }
    }

    /// The raw value, as an unsigned 64-bit number.
    pub open spec fn value(&self) -> u64 {
        match self {
            Const::ConstInt(v) => *v as u64,
            Const::ConstLong(v) => *v,
            Const::ConstUInt(v) => *v as u64,
            Const::ConstULong(v) => *v,
        }
    }
}

/// Size in bytes of a value of a type (0 for types without objects).
pub open spec fn type_size(t: Type) -> i32 {
    match t {
        Type::Int | Type::UInt => 4,
        Type::Long | Type::ULong => 8,
        _ => 0,
    }
}

pub fn size_of_type(t: Type) -> (s: i32)
    ensures
        s == type_size(t),
{
    match t {
        Type::Int | Type::UInt => 4,
        Type::Long | Type::ULong => 8,
        _ => 0,
    }
}

pub open spec fn is_unsigned_type(t: Type) -> bool {
    t == Type::UInt || t == Type::ULong
}

/// The constant a decimal literal denotes: without suffix an `int` when it
/// fits, else a `long`; with `l` a `long`; with `u` an `unsigned int` when it
/// fits, else an `unsigned long`; with `ul` an `unsigned long`.
pub open spec fn spec_const_of_literal(v: u64, suffix: LiteralSuffix) -> Const {
    match suffix {
        LiteralSuffix::Plain => if v <= 0x7fff_ffff {
            Const::ConstInt(v as u32)
        } else {
            Const::ConstLong(v)
        },
        LiteralSuffix::Long => Const::ConstLong(v),
        LiteralSuffix::Unsigned => if v <= 0xffff_ffff {
            Const::ConstUInt(v as u32)
        } else {
            Const::ConstULong(v)
        },
        LiteralSuffix::UnsignedLong => Const::ConstULong(v),
    }
}

pub fn const_of_literal(v: u64, suffix: LiteralSuffix) -> (c: Const)
    ensures
        c == spec_const_of_literal(v, suffix),
{
    match suffix {
        LiteralSuffix::Plain => if v <= 0x7fff_ffff {
            Const::ConstInt(v as u32)
        } else {
            Const::ConstLong(v)
        },
        LiteralSuffix::Long => Const::ConstLong(v),
        LiteralSuffix::Unsigned => if v <= 0xffff_ffff {
            Const::ConstUInt(v as u32)
        } else {
            Const::ConstULong(v)
        },
        LiteralSuffix::UnsignedLong => Const::ConstULong(v),
    }
}

/// An expression node and the type the type checker gives it.
#[derive(Debug)]
pub struct ASTNode {
    pub kind: Expression,
    pub type_: Type,
}

impl ASTNode {
    /// A node whose type is not yet known.
    pub fn new(kind: Expression) -> (n: ASTNode)
        ensures
            n == mk(kind),
    {
        ASTNode { kind, type_: Type::Void }
    }
}

/// A node whose type is not yet known (the model of `ASTNode::new`).
pub open spec fn mk(kind: Expression) -> ASTNode {
    ASTNode { kind, type_: Type::Void }
}

/// The arguments of a call.
#[derive(Debug)]
pub enum Arguments {
    Nil,
    Cons(Box<ASTNode>, Box<Arguments>),
}

#[derive(Debug)]
pub enum Expression {
    Constant(Const),
    Variable(Name),
    Unary(UnaryOperator, Box<ASTNode>),
    Binary { op: BinaryOperator, left: Box<ASTNode>, right: Box<ASTNode> },
    Assignment { left: Box<ASTNode>, right: Box<ASTNode> },
    Condition { condition: Box<ASTNode>, if_true: Box<ASTNode>, if_false: Box<ASTNode> },
    FunctionCall(Name, Box<Arguments>),
    Prefix(UnaryOperator, Box<ASTNode>),
    Postfix(UnaryOperator, Box<ASTNode>),
    Cast(Type, Box<ASTNode>),
}

/// A list of types (the parameter types of a function).
#[derive(Debug)]
pub enum TypeList {
    Nil,
    Cons(Type, Box<TypeList>),
}

/// A list of names (the parameters of a function).
#[derive(Debug)]
pub enum NameList {
    Nil,
    Cons(Name, Box<NameList>),
}

#[derive(Debug)]
pub struct FuncType {
    pub params: TypeList,
    pub ret: Type,
}

#[derive(Debug)]
pub struct FunctionDeclaration {
    pub name: Name,
    pub params: NameList,
    pub body: Option<Box<Block>>,
    pub storage_class: Option<StorageClass>,
    pub func_type: FuncType,
}

#[derive(Debug)]
pub struct VariableDeclaration {
    pub name: Name,
    pub init: Option<Box<ASTNode>>,
    pub storage_class: Option<StorageClass>,
    pub var_type: Type,
}

#[derive(Debug)]
pub enum Declaration {
    FunctionDeclaration(FunctionDeclaration),
    VariableDeclaration(VariableDeclaration),
}

/// The items of a block, in order.
#[derive(Debug)]
pub enum Block {
    Nil,
    Cons(Box<BlockItem>, Box<Block>),
}

#[derive(Debug)]
pub enum BlockItem {
    D(Declaration),
    S(Statement),
}

#[derive(Debug)]
pub enum ForInit {
    InitDecl(VariableDeclaration),
    InitExp(Option<Box<ASTNode>>),
}

/// A statement. Loop labels are numbers handed out by the parser; `break` and
/// `continue` get the label of their loop during variable resolution.
#[derive(Debug)]
pub enum Statement {
    Return(Box<ASTNode>),
    Expression(Box<ASTNode>),
    If { condition: Box<ASTNode>, if_true: Box<Statement>, if_false: Option<Box<Statement>> },
    Compound(Box<Block>),
    Break(u64),
    Continue { label: u64, is_for: bool },
    While { condition: Box<ASTNode>, body: Box<Statement>, label: u64, is_do_while: bool },
    For {
        init: Box<ForInit>,
        condition: Option<Box<ASTNode>>,
        increment: Option<Box<ASTNode>>,
        body: Box<Statement>,
        label: u64,
    },
    Null,
}

/// The top-level declarations of a translation unit, in order.
#[derive(Debug)]
pub enum Program {
    Nil,
    Cons(Box<Declaration>, Box<Program>),
}

pub open spec fn spec_is_lvalue_node(node: Expression) -> bool {
    match node {
        Expression::Prefix(_, _) | Expression::Variable(_) => true,
        _ => false,
    }
}

/// Whether an expression can stand on the left of an assignment.
pub fn is_lvalue_node(node: &Expression) -> (b: bool)
    ensures
        b == spec_is_lvalue_node(*node),
{
    match node {
        Expression::Prefix(_, _) | Expression::Variable(_) => true,
        _ => false,
    }
}

/// The variable at the bottom of a chain of prefix increments and decrements.
pub open spec fn spec_extract_base_variable(node: Expression) -> Option<Name>
    decreases node,
{
    match node {
        Expression::Variable(v) => Some(v),
        Expression::Prefix(_, v) => spec_extract_base_variable(v.kind),
        _ => None,
    }
}

/// The variable at the bottom of a chain of prefix increments and decrements,
/// if the expression is such a chain.
pub fn extract_base_variable(node: &Expression) -> (r: Option<Name>)
    ensures
        r == spec_extract_base_variable(*node),
    decreases node,
{
    match node {
        Expression::Variable(v) => Some(*v),
        Expression::Prefix(_, v) => extract_base_variable(&v.kind),
        _ => None,
    }
}


/// The labels of the loops of a statement, outer loops before the loops in
/// their bodies, in the order the loops are written.
pub open spec fn loop_ids(s: Statement) -> Seq<u64>
    decreases s,
{
    match s {
        Statement::If { if_true, if_false, .. } => loop_ids(*if_true) + match if_false {
            None => Seq::empty(),
            Some(f) => loop_ids(*f),
        },
        Statement::Compound(b) => items_loop_ids(*b),
        Statement::While { body, label, .. } => seq![label] + loop_ids(*body),
        Statement::For { body, label, .. } => seq![label] + loop_ids(*body),
        _ => Seq::empty(),
    }
}

pub open spec fn items_loop_ids(b: Block) -> Seq<u64>
    decreases b,
{
    match b {
        Block::Nil => Seq::empty(),
        Block::Cons(item, rest) => (match *item {
            BlockItem::S(s) => loop_ids(s),
            BlockItem::D(_) => Seq::empty(),
        }) + items_loop_ids(*rest),
    }
}

/// The numbers from `lo` up to, not including, `hi`.
pub open spec fn consecutive(lo: int, hi: int) -> Seq<u64> {
    Seq::new((hi - lo) as nat, |i: int| (lo + i) as u64)
}

} // verus!
