use crate::ast::{
    is_unsigned_type, size_of_type, type_size, ASTNode, Arguments, Block, BlockItem, Declaration, Expression, ForInit, FunctionDeclaration,
    Name, NameList, Statement, TypeList, VariableDeclaration,
};
use crate::errors::{step_outcome, CompilerError, ErrorKind};
use crate::lexer::{BinaryOperator, Type, UnaryOperator};
use crate::parser::plain_outcome;
use crate::resolve::{args_len, items_jump_to_innermost, jumps_to_innermost};
use crate::symbols::{assoc_find, assoc_get, assoc_insert, assoc_put, type_list_len, FunAttr, StaticAttr};
use vstd::prelude::*;

verus! {

/// The model of the type checker's state: the types of the local names seen
/// so far in the function, and the function's return type.
pub struct TypeState {
    pub locals: Seq<(Name, Type)>,
    pub ret: Type,
}

// ---------------------------------------------------------------------------
// The model of type checking.
// ---------------------------------------------------------------------------

/// The type both operands of an arithmetic operator are converted to (the
/// usual arithmetic conversions): the type itself when both agree; of two
/// types of one size, the unsigned one; otherwise the larger one.
pub open spec fn spec_common_type(t1: Type, t2: Type) -> Type {
    if t1 == t2 {
        t1
    } else if type_size(t1) == type_size(t2) {
        if is_unsigned_type(t1) {
            t1
        } else {
            t2
        }
    } else if type_size(t1) > type_size(t2) {
        t1
    } else {
        t2
    }
}

/// Whether a binary operator shifts its left operand.
pub open spec fn is_shift(op: BinaryOperator) -> bool {
    op == BinaryOperator::BitwiseShiftLeft || op == BinaryOperator::BitwiseShiftRight
}

/// An expression converted to a type: itself when it already has that type,
/// else wrapped in a cast.
pub open spec fn spec_convert_to(e: ASTNode, t: Type) -> ASTNode {
    if e.type_ == t {
        e
    } else {
        ASTNode { kind: Expression::Cast(t, Box::new(e)), type_: t }
    }
}

/// Whether a binary operator yields a value of its operands' common type
/// (comparisons and logical operators yield `int`; a shift yields the type
/// of its left operand).
pub open spec fn result_is_common(op: BinaryOperator) -> bool {
    match op {
        BinaryOperator::Addition | BinaryOperator::Subtraction | BinaryOperator::Multiply
        | BinaryOperator::Divide | BinaryOperator::Modulo | BinaryOperator::BitwiseAnd
        | BinaryOperator::BitwiseOr | BinaryOperator::BitwiseXor => true,
        _ => false,
    }
}

/// The type of a variable: that of the object of static storage duration of
/// that name, else that of the local.
pub open spec fn spec_var_type(
    globals: Seq<(Name, StaticAttr)>,
    locals: Seq<(Name, Type)>,
    n: Name,
) -> Option<Type> {
    match assoc_get(globals, n) {
        Some(a) => Some(a.type_),
        None => assoc_get(locals, n),
    }
}

pub open spec fn typed(k: Expression, t: Type) -> ASTNode {
    ASTNode { kind: k, type_: t }
}

pub open spec fn spec_check_expr(
    funcs: Seq<(Name, FunAttr)>,
    globals: Seq<(Name, StaticAttr)>,
    locals: Seq<(Name, Type)>,
    e: ASTNode,
) -> Result<ASTNode, ErrorKind>
    decreases e,
{
    match e.kind {
        Expression::Constant(c) => Ok(typed(Expression::Constant(c), c.spec_type())),
        Expression::Variable(n) => match spec_var_type(globals, locals, n) {
            Some(t) => Ok(typed(Expression::Variable(n), t)),
            None => Err(ErrorKind::Semantic),
        },
        Expression::Unary(op, x) => match spec_check_expr(funcs, globals, locals, *x) {
            Err(k) => Err(k),
            Ok(y) => Ok(
                typed(
                    Expression::Unary(op, Box::new(y)),
                    if op == UnaryOperator::LogicalNot {
                        Type::Int
                    } else {
                        y.type_
                    },
                ),
            ),
        },
        Expression::Binary { op, left, right } => match spec_check_expr(funcs, globals, locals, *left) {
            Err(k) => Err(k),
            Ok(l) => match spec_check_expr(funcs, globals, locals, *right) {
                Err(k) => Err(k),
                Ok(r) => if op == BinaryOperator::LogicalAnd || op == BinaryOperator::LogicalOr {
                    Ok(typed(Expression::Binary { op, left: Box::new(l), right: Box::new(r) }, Type::Int))
                } else if is_shift(op) {
                    Ok(
                        typed(
                            Expression::Binary {
                                op,
                                left: Box::new(l),
                                right: Box::new(spec_convert_to(r, l.type_)),
                            },
                            l.type_,
                        ),
                    )
                } else {
                    let c = spec_common_type(l.type_, r.type_);
                    Ok(
                        typed(
                            Expression::Binary {
                                op,
                                left: Box::new(spec_convert_to(l, c)),
                                right: Box::new(spec_convert_to(r, c)),
                            },
                            if result_is_common(op) {
                                c
                            } else {
                                Type::Int
                            },
                        ),
                    )
                },
            },
        },
        Expression::Assignment { left, right } => match spec_check_expr(funcs, globals, locals, *left) {
            Err(k) => Err(k),
            Ok(l) => match spec_check_expr(funcs, globals, locals, *right) {
                Err(k) => Err(k),
                Ok(r) => Ok(
                    typed(
                        Expression::Assignment {
                            left: Box::new(l),
                            right: Box::new(spec_convert_to(r, l.type_)),
                        },
                        l.type_,
                    ),
                ),
            },
        },
        Expression::Condition { condition, if_true, if_false } => match spec_check_expr(
            funcs,
            globals,
            locals,
            *condition,
        ) {
            Err(k) => Err(k),
            Ok(c) => match spec_check_expr(funcs, globals, locals, *if_true) {
                Err(k) => Err(k),
                Ok(t) => match spec_check_expr(funcs, globals, locals, *if_false) {
                    Err(k) => Err(k),
                    Ok(f) => {
                        let ct = spec_common_type(t.type_, f.type_);
                        Ok(
                            typed(
                                Expression::Condition {
                                    condition: Box::new(c),
                                    if_true: Box::new(spec_convert_to(t, ct)),
                                    if_false: Box::new(spec_convert_to(f, ct)),
                                },
                                ct,
                            ),
                        )
                    },
                },
            },
        },
        Expression::FunctionCall(f, args) => match assoc_get(funcs, f) {
            None => Err(ErrorKind::Semantic),
            Some(attr) => if args_len(*args) != type_list_len(attr.func_type.params) {
                Err(ErrorKind::Semantic)
            } else {
                match spec_check_args(funcs, globals, locals, *args, attr.func_type.params) {
                    Err(k) => Err(k),
                    Ok(a) => Ok(typed(Expression::FunctionCall(f, Box::new(a)), attr.func_type.ret)),
                }
            },
        },
        Expression::Prefix(op, x) => match spec_check_expr(funcs, globals, locals, *x) {
            Err(k) => Err(k),
            Ok(y) => Ok(typed(Expression::Prefix(op, Box::new(y)), y.type_)),
        },
        Expression::Postfix(op, x) => match spec_check_expr(funcs, globals, locals, *x) {
            Err(k) => Err(k),
            Ok(y) => Ok(typed(Expression::Postfix(op, Box::new(y)), y.type_)),
        },
        Expression::Cast(t, x) => match spec_check_expr(funcs, globals, locals, *x) {
            Err(k) => Err(k),
            Ok(y) => Ok(typed(Expression::Cast(t, Box::new(y)), t)),
        },
    }
}

/// The arguments of a call, each converted to the type of its parameter.
pub open spec fn spec_check_args(
    funcs: Seq<(Name, FunAttr)>,
    globals: Seq<(Name, StaticAttr)>,
    locals: Seq<(Name, Type)>,
    a: Arguments,
    params: TypeList,
) -> Result<Arguments, ErrorKind>
    decreases a,
{
    match a {
        Arguments::Nil => Ok(Arguments::Nil),
        Arguments::Cons(x, rest) => match params {
            TypeList::Nil => Err(ErrorKind::Semantic),
            TypeList::Cons(t, ps) => match spec_check_expr(funcs, globals, locals, *x) {
                Err(k) => Err(k),
                Ok(y) => match spec_check_args(funcs, globals, locals, *rest, *ps) {
                    Err(k) => Err(k),
                    Ok(r) => Ok(Arguments::Cons(Box::new(spec_convert_to(y, t)), Box::new(r))),
                },
            },
        },
    }
}

pub open spec fn spec_check_opt(
    funcs: Seq<(Name, FunAttr)>,
    globals: Seq<(Name, StaticAttr)>,
    locals: Seq<(Name, Type)>,
    e: Option<Box<ASTNode>>,
) -> Result<Option<Box<ASTNode>>, ErrorKind> {
    match e {
        None => Ok(None),
        Some(x) => match spec_check_expr(funcs, globals, locals, *x) {
            Err(k) => Err(k),
            Ok(y) => Ok(Some(Box::new(y))),
        },
    }
}

/// A variable declaration: the variable gets its declared type, and its
/// initialiser is converted to that type.
pub open spec fn spec_check_var_decl(
    funcs: Seq<(Name, FunAttr)>,
    globals: Seq<(Name, StaticAttr)>,
    ts: TypeState,
    d: VariableDeclaration,
) -> Result<(VariableDeclaration, TypeState), ErrorKind> {
    if d.var_type == Type::Void {
        Err(ErrorKind::Semantic)
    } else {
        let ts1 = TypeState { locals: assoc_insert(ts.locals, d.name, d.var_type), ..ts };
        match d.init {
            None => Ok((d, ts1)),
            Some(x) => match spec_check_expr(funcs, globals, ts1.locals, *x) {
                Err(k) => Err(k),
                Ok(y) => Ok(
                    (
                        VariableDeclaration {
                            name: d.name,
                            init: Some(Box::new(spec_convert_to(y, d.var_type))),
                            storage_class: d.storage_class,
                            var_type: d.var_type,
                        },
                        ts1,
                    ),
                ),
            },
        }
    }
}

pub open spec fn spec_check_stmt(
    funcs: Seq<(Name, FunAttr)>,
    globals: Seq<(Name, StaticAttr)>,
    ts: TypeState,
    s: Statement,
) -> Result<(Statement, TypeState), ErrorKind>
    decreases s,
{
    match s {
        Statement::Return(e) => match spec_check_expr(funcs, globals, ts.locals, *e) {
            Err(k) => Err(k),
            Ok(y) => Ok((Statement::Return(Box::new(spec_convert_to(y, ts.ret))), ts)),
        },
        Statement::Expression(e) => match spec_check_expr(funcs, globals, ts.locals, *e) {
            Err(k) => Err(k),
            Ok(y) => Ok((Statement::Expression(Box::new(y)), ts)),
        },
        Statement::If { condition, if_true, if_false } => match spec_check_expr(
            funcs,
            globals,
            ts.locals,
            *condition,
        ) {
            Err(k) => Err(k),
            Ok(c) => match spec_check_stmt(funcs, globals, ts, *if_true) {
                Err(k) => Err(k),
                Ok((t, ts1)) => match if_false {
                    None => Ok(
                        (Statement::If { condition: Box::new(c), if_true: Box::new(t), if_false: None }, ts1),
                    ),
                    Some(f) => match spec_check_stmt(funcs, globals, ts1, *f) {
                        Err(k) => Err(k),
                        Ok((f2, ts2)) => Ok(
                            (
                                Statement::If {
                                    condition: Box::new(c),
                                    if_true: Box::new(t),
                                    if_false: Some(Box::new(f2)),
                                },
                                ts2,
                            ),
                        ),
                    },
                },
            },
        },
        Statement::Compound(b) => match spec_check_items(funcs, globals, ts, *b) {
            Err(k) => Err(k),
            Ok((b2, ts1)) => Ok((Statement::Compound(Box::new(b2)), ts1)),
        },
        Statement::While { condition, body, label, is_do_while } => match spec_check_expr(
            funcs,
            globals,
            ts.locals,
            *condition,
        ) {
            Err(k) => Err(k),
            Ok(c) => match spec_check_stmt(funcs, globals, ts, *body) {
                Err(k) => Err(k),
                Ok((b, ts1)) => Ok(
                    (
                        Statement::While { condition: Box::new(c), body: Box::new(b), label, is_do_while },
                        ts1,
                    ),
                ),
            },
        },
        Statement::For { init, condition, increment, body, label } => {
            let init_res: Result<(ForInit, TypeState), ErrorKind> = match *init {
                ForInit::InitDecl(d) => match spec_check_var_decl(funcs, globals, ts, d) {
                    Err(k) => Err(k),
                    Ok((d2, ts1)) => Ok((ForInit::InitDecl(d2), ts1)),
                },
                ForInit::InitExp(x) => match spec_check_opt(funcs, globals, ts.locals, x) {
                    Err(k) => Err(k),
                    Ok(y) => Ok((ForInit::InitExp(y), ts)),
                },
            };
            match init_res {
                Err(k) => Err(k),
                Ok((i2, ts1)) => match spec_check_opt(funcs, globals, ts1.locals, condition) {
                    Err(k) => Err(k),
                    Ok(c) => match spec_check_opt(funcs, globals, ts1.locals, increment) {
                        Err(k) => Err(k),
                        Ok(inc) => match spec_check_stmt(funcs, globals, ts1, *body) {
                            Err(k) => Err(k),
                            Ok((b, ts2)) => Ok(
                                (
                                    Statement::For {
                                        init: Box::new(i2),
                                        condition: c,
                                        increment: inc,
                                        body: Box::new(b),
                                        label,
                                    },
                                    ts2,
                                ),
                            ),
                        },
                    },
                },
            }
        },
        Statement::Break(l) => Ok((Statement::Break(l), ts)),
        Statement::Continue { label, is_for } => Ok((Statement::Continue { label, is_for }, ts)),
        Statement::Null => Ok((Statement::Null, ts)),
    }
}

pub open spec fn spec_check_items(
    funcs: Seq<(Name, FunAttr)>,
    globals: Seq<(Name, StaticAttr)>,
    ts: TypeState,
    b: Block,
) -> Result<(Block, TypeState), ErrorKind>
    decreases b,
{
    match b {
        Block::Nil => Ok((Block::Nil, ts)),
        Block::Cons(item, rest) => {
            let r: Result<(BlockItem, TypeState), ErrorKind> = match *item {
                BlockItem::D(Declaration::VariableDeclaration(d)) => match spec_check_var_decl(
                    funcs,
                    globals,
                    ts,
                    d,
                ) {
                    Err(k) => Err(k),
                    Ok((d2, ts1)) => Ok((BlockItem::D(Declaration::VariableDeclaration(d2)), ts1)),
                },
                BlockItem::D(Declaration::FunctionDeclaration(_)) => Err(ErrorKind::Semantic),
                BlockItem::S(s) => match spec_check_stmt(funcs, globals, ts, s) {
                    Err(k) => Err(k),
                    Ok((s2, ts1)) => Ok((BlockItem::S(s2), ts1)),
                },
            };
            match r {
                Err(k) => Err(k),
                Ok((i2, ts1)) => match spec_check_items(funcs, globals, ts1, *rest) {
                    Err(k) => Err(k),
                    Ok((r2, ts2)) => Ok((Block::Cons(Box::new(i2), Box::new(r2)), ts2)),
                },
            }
        },
    }
}

/// The parameters with their types, entered in order.
pub open spec fn spec_bind_params(locals: Seq<(Name, Type)>, names: NameList, types: TypeList) -> Seq<
    (Name, Type),
>
    decreases names,
{
    match names {
        NameList::Nil => locals,
        NameList::Cons(n, rest) => match types {
            TypeList::Nil => locals,
            TypeList::Cons(t, ts) => spec_bind_params(assoc_insert(locals, n, t), *rest, *ts),
        },
    }
}

/// Type checks a function: its parameters have the types of its signature
/// and its return statements convert to its return type.
pub open spec fn spec_check_function(
    funcs: Seq<(Name, FunAttr)>,
    globals: Seq<(Name, StaticAttr)>,
    ts: TypeState,
    f: FunctionDeclaration,
) -> Result<(FunctionDeclaration, TypeState), ErrorKind> {
    let ts1 = TypeState {
        locals: spec_bind_params(ts.locals, f.params, f.func_type.params),
        ret: f.func_type.ret,
    };
    match f.body {
        None => Ok((f, ts1)),
        Some(b) => match spec_check_items(funcs, globals, ts1, *b) {
            Err(k) => Err(k),
            Ok((b2, ts2)) => Ok(
                (
                    FunctionDeclaration {
                        name: f.name,
                        params: f.params,
                        body: Some(Box::new(b2)),
                        storage_class: f.storage_class,
                        func_type: f.func_type,
                    },
                    ts2,
                ),
            ),
        },
    }
}


// ---------------------------------------------------------------------------
// The type checker.
// ---------------------------------------------------------------------------

fn semantic(msg: &str) -> (e: CompilerError)
    ensures
        e.kind() == ErrorKind::Semantic,
{
    CompilerError::with_message(ErrorKind::Semantic, msg)
}

/// The common type of two operand types.
pub fn get_common_type(type1: Type, type2: Type) -> (t: Type)
    ensures
        t == spec_common_type(type1, type2),
{
    let s1 = size_of_type(type1);
    let s2 = size_of_type(type2);
    if type1 == type2 {
        type1
    } else if s1 == s2 {
        if type1 == Type::UInt || type1 == Type::ULong {
            type1
        } else {
            type2
        }
    } else if s1 > s2 {
        type1
    } else {
        type2
    }
}

/// Converts an expression to a type by wrapping it in a cast when needed.
pub fn convert_to(e: ASTNode, t: Type) -> (r: ASTNode)
    ensures
        r == spec_convert_to(e, t),
{
    if e.type_ == t {
        e
    } else {
        ASTNode { kind: Expression::Cast(t, Box::new(e)), type_: t }
    }
}

fn is_common_result(op: BinaryOperator) -> (b: bool)
    ensures
        b == result_is_common(op),
{
    match op {
        BinaryOperator::Addition | BinaryOperator::Subtraction | BinaryOperator::Multiply
        | BinaryOperator::Divide | BinaryOperator::Modulo | BinaryOperator::BitwiseAnd
        | BinaryOperator::BitwiseOr | BinaryOperator::BitwiseXor => true,
        _ => false,
    }
}

fn same_length(a: &Arguments, t: &TypeList) -> (b: bool)
    ensures
        b == (args_len(*a) == type_list_len(*t)),
    decreases a,
{
    match (a, t) {
        (Arguments::Nil, TypeList::Nil) => true,
        (Arguments::Cons(_, ra), TypeList::Cons(_, rt)) => same_length(ra, rt),
        _ => false,
    }
}

/// Gives every expression of a function its type and makes the implicit
/// conversions explicit as casts.
pub struct TypeCheckVisitor {
    variables_map: Vec<(Name, Type)>,
    current_return_type: Type,
}

impl View for TypeCheckVisitor {
    type V = TypeState;

    closed spec fn view(&self) -> TypeState {
        TypeState { locals: self.variables_map@, ret: self.current_return_type }
    }
}

impl TypeCheckVisitor {
    pub fn new() -> (v: Self)
        ensures
            v@ == (TypeState { locals: Seq::empty(), ret: Type::Void }),
    {
        TypeCheckVisitor { variables_map: Vec::new(), current_return_type: Type::Void }
    }

    fn var_type(&self, globals: &Vec<(Name, StaticAttr)>, n: Name) -> (r: Option<Type>)
        ensures
            r == spec_var_type(globals@, self@.locals, n),
    {
        match assoc_find(globals, n) {
            Some(i) => Some(globals[i].1.type_),
            None => match assoc_find(&self.variables_map, n) {
                Some(j) => Some(self.variables_map[j].1),
                None => None,
            },
        }
    }

    #[verifier::rlimit(30)]
    fn check_expr(
        &self,
        funcs: &Vec<(Name, FunAttr)>,
        globals: &Vec<(Name, StaticAttr)>,
        e: ASTNode,
    ) -> (r: Result<ASTNode, CompilerError>)
        ensures
            plain_outcome(r, spec_check_expr(funcs@, globals@, self@.locals, e)),
        decreases e,
    {
        match e.kind {
            Expression::Constant(c) => {
                let t = match c {
                    crate::ast::Const::ConstInt(_) => Type::Int,
                    crate::ast::Const::ConstLong(_) => Type::Long,
                    crate::ast::Const::ConstUInt(_) => Type::UInt,
                    crate::ast::Const::ConstULong(_) => Type::ULong,
                };
                Ok(ASTNode { kind: Expression::Constant(c), type_: t })
            },
            Expression::Variable(n) => match self.var_type(globals, n) {
                Some(t) => Ok(ASTNode { kind: Expression::Variable(n), type_: t }),
                None => Err(semantic("Undeclared variable")),
            },
            Expression::Unary(op, x) => {
                let y = self.check_expr(funcs, globals, *x)?;
                let t = if op == UnaryOperator::LogicalNot {
                    Type::Int
                } else {
                    y.type_
                };
                Ok(ASTNode { kind: Expression::Unary(op, Box::new(y)), type_: t })
            },
            Expression::Binary { op, left, right } => {
                let l = self.check_expr(funcs, globals, *left)?;
                let r = self.check_expr(funcs, globals, *right)?;
                if op == BinaryOperator::LogicalAnd || op == BinaryOperator::LogicalOr {
                    return Ok(
                        ASTNode {
                            kind: Expression::Binary { op, left: Box::new(l), right: Box::new(r) },
                            type_: Type::Int,
                        },
                    );
                }
                if op == BinaryOperator::BitwiseShiftLeft || op == BinaryOperator::BitwiseShiftRight {
                    let t = l.type_;
                    return Ok(
                        ASTNode {
                            kind: Expression::Binary { op, left: Box::new(l), right: Box::new(convert_to(r, t)) },
                            type_: t,
                        },
                    );
                }
                let c = get_common_type(l.type_, r.type_);
                let t = if is_common_result(op) {
                    c
                } else {
                    Type::Int
                };
                Ok(
                    ASTNode {
                        kind: Expression::Binary {
                            op,
                            left: Box::new(convert_to(l, c)),
                            right: Box::new(convert_to(r, c)),
                        },
                        type_: t,
                    },
                )
            },
            Expression::Assignment { left, right } => {
                let l = self.check_expr(funcs, globals, *left)?;
                let r = self.check_expr(funcs, globals, *right)?;
                let t = l.type_;
                Ok(
                    ASTNode {
                        kind: Expression::Assignment { left: Box::new(l), right: Box::new(convert_to(r, t)) },
                        type_: t,
                    },
                )
            },
            Expression::Condition { condition, if_true, if_false } => {
                let c = self.check_expr(funcs, globals, *condition)?;
                let a = self.check_expr(funcs, globals, *if_true)?;
                let b = self.check_expr(funcs, globals, *if_false)?;
                let ct = get_common_type(a.type_, b.type_);
                Ok(
                    ASTNode {
                        kind: Expression::Condition {
                            condition: Box::new(c),
                            if_true: Box::new(convert_to(a, ct)),
                            if_false: Box::new(convert_to(b, ct)),
                        },
                        type_: ct,
                    },
                )
            },
            Expression::FunctionCall(f, args) => match assoc_find(funcs, f) {
                None => Err(semantic("Undefined function")),
                Some(i) => {
                    let params = &funcs[i].1.func_type.params;
                    if !same_length(&args, params) {
                        return Err(semantic("Wrong number of arguments"));
                    }
                    let a = self.check_args(funcs, globals, *args, params)?;
                    Ok(ASTNode { kind: Expression::FunctionCall(f, Box::new(a)), type_: funcs[i].1.func_type.ret })
                },
            },
            Expression::Prefix(op, x) => {
                let y = self.check_expr(funcs, globals, *x)?;
                let t = y.type_;
                Ok(ASTNode { kind: Expression::Prefix(op, Box::new(y)), type_: t })
            },
            Expression::Postfix(op, x) => {
                let y = self.check_expr(funcs, globals, *x)?;
                let t = y.type_;
                Ok(ASTNode { kind: Expression::Postfix(op, Box::new(y)), type_: t })
            },
            Expression::Cast(t, x) => {
                let y = self.check_expr(funcs, globals, *x)?;
                Ok(ASTNode { kind: Expression::Cast(t, Box::new(y)), type_: t })
            },
        }
    }

    fn check_args(
        &self,
        funcs: &Vec<(Name, FunAttr)>,
        globals: &Vec<(Name, StaticAttr)>,
        a: Arguments,
        params: &TypeList,
    ) -> (r: Result<Arguments, CompilerError>)
        ensures
            plain_outcome(r, spec_check_args(funcs@, globals@, self@.locals, a, *params)),
        decreases a,
    {
        match a {
            Arguments::Nil => Ok(Arguments::Nil),
            Arguments::Cons(x, rest) => match params {
                TypeList::Nil => Err(semantic("Too many arguments")),
                TypeList::Cons(t, ps) => {
                    let y = self.check_expr(funcs, globals, *x)?;
                    let r = self.check_args(funcs, globals, *rest, ps)?;
                    Ok(Arguments::Cons(Box::new(convert_to(y, *t)), Box::new(r)))
                },
            },
        }
    }

    fn check_opt(
        &self,
        funcs: &Vec<(Name, FunAttr)>,
        globals: &Vec<(Name, StaticAttr)>,
        e: Option<Box<ASTNode>>,
    ) -> (r: Result<Option<Box<ASTNode>>, CompilerError>)
        ensures
            plain_outcome(r, spec_check_opt(funcs@, globals@, self@.locals, e)),
    {
        match e {
            None => Ok(None),
            Some(x) => {
                let y = self.check_expr(funcs, globals, *x)?;
                Ok(Some(Box::new(y)))
            },
        }
    }

    fn check_var_decl(
        &mut self,
        funcs: &Vec<(Name, FunAttr)>,
        globals: &Vec<(Name, StaticAttr)>,
        d: VariableDeclaration,
    ) -> (r: Result<VariableDeclaration, CompilerError>)
        ensures
            step_outcome(r, spec_check_var_decl(funcs@, globals@, old(self)@, d), final(self)@),
    {
        if d.var_type == Type::Void {
            return Err(semantic("Cannot declare a variable of type void"));
        }
        assoc_put(&mut self.variables_map, d.name, d.var_type);
        match d.init {
            None => Ok(d),
            Some(x) => {
                let y = self.check_expr(funcs, globals, *x)?;
                Ok(
                    VariableDeclaration {
                        name: d.name,
                        init: Some(Box::new(convert_to(y, d.var_type))),
                        storage_class: d.storage_class,
                        var_type: d.var_type,
                    },
                )
            },
        }
    }

    #[verifier::rlimit(30)]
    fn check_stmt(
        &mut self,
        funcs: &Vec<(Name, FunAttr)>,
        globals: &Vec<(Name, StaticAttr)>,
        s: Statement,
    ) -> (r: Result<Statement, CompilerError>)
        ensures
            step_outcome(r, spec_check_stmt(funcs@, globals@, old(self)@, s), final(self)@),
        decreases s,
    {
        match s {
            Statement::Return(e) => {
                let y = self.check_expr(funcs, globals, *e)?;
                Ok(Statement::Return(Box::new(convert_to(y, self.current_return_type))))
            },
            Statement::Expression(e) => {
                let y = self.check_expr(funcs, globals, *e)?;
                Ok(Statement::Expression(Box::new(y)))
            },
            Statement::If { condition, if_true, if_false } => {
                let c = self.check_expr(funcs, globals, *condition)?;
                let t = self.check_stmt(funcs, globals, *if_true)?;
                match if_false {
                    None => Ok(Statement::If { condition: Box::new(c), if_true: Box::new(t), if_false: None }),
                    Some(f) => {
                        let f2 = self.check_stmt(funcs, globals, *f)?;
                        Ok(
                            Statement::If {
                                condition: Box::new(c),
                                if_true: Box::new(t),
                                if_false: Some(Box::new(f2)),
                            },
                        )
                    },
                }
            },
            Statement::Compound(b) => {
                let b2 = self.check_items(funcs, globals, *b)?;
                Ok(Statement::Compound(Box::new(b2)))
            },
            Statement::While { condition, body, label, is_do_while } => {
                let c = self.check_expr(funcs, globals, *condition)?;
                let b = self.check_stmt(funcs, globals, *body)?;
                Ok(Statement::While { condition: Box::new(c), body: Box::new(b), label, is_do_while })
            },
            Statement::For { init, condition, increment, body, label } => {
                let i2 = match *init {
                    ForInit::InitDecl(d) => ForInit::InitDecl(self.check_var_decl(funcs, globals, d)?),
                    ForInit::InitExp(x) => ForInit::InitExp(self.check_opt(funcs, globals, x)?),
                };
                let c = self.check_opt(funcs, globals, condition)?;
                let inc = self.check_opt(funcs, globals, increment)?;
                let b = self.check_stmt(funcs, globals, *body)?;
                Ok(Statement::For { init: Box::new(i2), condition: c, increment: inc, body: Box::new(b), label })
            },
            Statement::Break(l) => Ok(Statement::Break(l)),
            Statement::Continue { label, is_for } => Ok(Statement::Continue { label, is_for }),
            Statement::Null => Ok(Statement::Null),
        }
    }

    fn check_items(
        &mut self,
        funcs: &Vec<(Name, FunAttr)>,
        globals: &Vec<(Name, StaticAttr)>,
        b: Block,
    ) -> (r: Result<Block, CompilerError>)
        ensures
            step_outcome(r, spec_check_items(funcs@, globals@, old(self)@, b), final(self)@),
        decreases b,
    {
        match b {
            Block::Nil => Ok(Block::Nil),
            Block::Cons(item, rest) => {
                let i2 = match *item {
                    BlockItem::D(Declaration::VariableDeclaration(d)) => BlockItem::D(
                        Declaration::VariableDeclaration(self.check_var_decl(funcs, globals, d)?),
                    ),
                    BlockItem::D(Declaration::FunctionDeclaration(_)) => {
                        return Err(semantic("Function declared inside a block"));
                    },
                    BlockItem::S(s) => BlockItem::S(self.check_stmt(funcs, globals, s)?),
                };
                let r2 = self.check_items(funcs, globals, *rest)?;
                Ok(Block::Cons(Box::new(i2), Box::new(r2)))
            },
        }
    }

    fn bind_params(&mut self, names: &NameList, types: &TypeList)
        ensures
            final(self)@ == (TypeState {
                locals: spec_bind_params(old(self)@.locals, *names, *types),
                ..old(self)@
            }),
        decreases names,
    {
        match names {
            NameList::Nil => {},
            NameList::Cons(n, rest) => match types {
                TypeList::Nil => {},
                TypeList::Cons(t, ts) => {
                    assoc_put(&mut self.variables_map, *n, *t);
                    self.bind_params(rest, ts);
                },
            },
        }
    }

    /// Type checks a function declaration.
    pub fn check_function(
        &mut self,
        funcs: &Vec<(Name, FunAttr)>,
        globals: &Vec<(Name, StaticAttr)>,
        f: FunctionDeclaration,
    ) -> (r: Result<FunctionDeclaration, CompilerError>)
        ensures
            step_outcome(r, spec_check_function(funcs@, globals@, old(self)@, f), final(self)@),
    {
        self.bind_params(&f.params, &f.func_type.params);
        self.current_return_type = f.func_type.ret;
        match f.body {
            None => Ok(f),
            Some(b) => {
                let b2 = self.check_items(funcs, globals, *b)?;
                Ok(
                    FunctionDeclaration {
                        name: f.name,
                        params: f.params,
                        body: Some(Box::new(b2)),
                        storage_class: f.storage_class,
                        func_type: f.func_type,
                    },
                )
            },
        }
    }
}

} // verus!

verus! {

// ---------------------------------------------------------------------------
// What type checking establishes.
// ---------------------------------------------------------------------------

/// Each argument has the type of its parameter.
pub open spec fn args_match(a: Arguments, params: TypeList) -> bool
    decreases a,
{
    match a {
        Arguments::Nil => params is Nil,
        Arguments::Cons(x, rest) => match params {
            TypeList::Nil => false,
            TypeList::Cons(t, ts) => x.type_ == t && args_match(*rest, *ts),
        },
    }
}

/// The typing rules: operands of an arithmetic or comparison operator have
/// one type, a shift and its count have the type of its left operand, the right side of an assignment has the type of its left side,
/// both branches of a conditional have its type, a cast has its target
/// type, and each argument of a call has the type of its parameter.
pub open spec fn well_typed(funcs: Seq<(Name, FunAttr)>, e: ASTNode) -> bool
    decreases e,
{
    match e.kind {
        Expression::Constant(c) => e.type_ == c.spec_type(),
        Expression::Variable(_) => true,
        Expression::Unary(op, x) => e.type_ == (if op == UnaryOperator::LogicalNot {
            Type::Int
        } else {
            x.type_
        }) && well_typed(funcs, *x),
        Expression::Binary { op, left, right } => well_typed(funcs, *left) && well_typed(funcs, *right)
            && if op == BinaryOperator::LogicalAnd || op == BinaryOperator::LogicalOr {
            e.type_ == Type::Int
        } else if is_shift(op) {
            right.type_ == left.type_ && e.type_ == left.type_
        } else {
            left.type_ == right.type_ && e.type_ == (if result_is_common(op) {
                left.type_
            } else {
                Type::Int
            })
        },
        Expression::Assignment { left, right } => well_typed(funcs, *left) && well_typed(funcs, *right)
            && right.type_ == left.type_ && e.type_ == left.type_,
        Expression::Condition { condition, if_true, if_false } => well_typed(funcs, *condition)
            && well_typed(funcs, *if_true) && well_typed(funcs, *if_false) && if_true.type_ == e.type_
            && if_false.type_ == e.type_,
        Expression::FunctionCall(f, args) => args_well_typed(funcs, *args) && match assoc_get(funcs, f) {
            Some(attr) => args_match(*args, attr.func_type.params) && e.type_ == attr.func_type.ret,
            None => false,
        },
        Expression::Prefix(_, x) | Expression::Postfix(_, x) => e.type_ == x.type_ && well_typed(
            funcs,
            *x,
        ),
        Expression::Cast(t, x) => e.type_ == t && well_typed(funcs, *x),
    }
}

pub open spec fn args_well_typed(funcs: Seq<(Name, FunAttr)>, a: Arguments) -> bool
    decreases a,
{
    match a {
        Arguments::Nil => true,
        Arguments::Cons(x, rest) => well_typed(funcs, *x) && args_well_typed(funcs, *rest),
    }
}

/// Converting a well-typed expression gives a well-typed expression of the target type.
pub proof fn lemma_convert_to_well_typed(funcs: Seq<(Name, FunAttr)>, e: ASTNode, t: Type)
    requires
        well_typed(funcs, e),
    ensures
        well_typed(funcs, spec_convert_to(e, t)),
        spec_convert_to(e, t).type_ == t,
{
}

/// Type checking an expression yields a well-typed expression.
#[verifier::rlimit(30)]
pub proof fn lemma_check_expr_well_typed(
    funcs: Seq<(Name, FunAttr)>,
    globals: Seq<(Name, StaticAttr)>,
    locals: Seq<(Name, Type)>,
    e: ASTNode,
)
    ensures
        spec_check_expr(funcs, globals, locals, e) matches Ok(e2) ==> well_typed(funcs, e2),
    decreases e,
{
    match e.kind {
        Expression::Constant(_) | Expression::Variable(_) => {},
        Expression::Unary(_, x) | Expression::Prefix(_, x) | Expression::Postfix(_, x)
        | Expression::Cast(_, x) => {
            lemma_check_expr_well_typed(funcs, globals, locals, *x);
        },
        Expression::Binary { op, left, right } => {
            lemma_check_expr_well_typed(funcs, globals, locals, *left);
            lemma_check_expr_well_typed(funcs, globals, locals, *right);
            if let Ok(l) = spec_check_expr(funcs, globals, locals, *left) {
                if let Ok(r) = spec_check_expr(funcs, globals, locals, *right) {
                    let c = spec_common_type(l.type_, r.type_);
                    lemma_convert_to_well_typed(funcs, l, c);
                    lemma_convert_to_well_typed(funcs, r, c);
                    lemma_convert_to_well_typed(funcs, r, l.type_);
                }
            }
        },
        Expression::Assignment { left, right } => {
            lemma_check_expr_well_typed(funcs, globals, locals, *left);
            lemma_check_expr_well_typed(funcs, globals, locals, *right);
            if let Ok(l) = spec_check_expr(funcs, globals, locals, *left) {
                if let Ok(r) = spec_check_expr(funcs, globals, locals, *right) {
                    lemma_convert_to_well_typed(funcs, r, l.type_);
                }
            }
        },
        Expression::Condition { condition, if_true, if_false } => {
            lemma_check_expr_well_typed(funcs, globals, locals, *condition);
            lemma_check_expr_well_typed(funcs, globals, locals, *if_true);
            lemma_check_expr_well_typed(funcs, globals, locals, *if_false);
            if let Ok(t) = spec_check_expr(funcs, globals, locals, *if_true) {
                if let Ok(f) = spec_check_expr(funcs, globals, locals, *if_false) {
                    let ct = spec_common_type(t.type_, f.type_);
                    lemma_convert_to_well_typed(funcs, t, ct);
                    lemma_convert_to_well_typed(funcs, f, ct);
                }
            }
        },
        Expression::FunctionCall(f, args) => {
            if let Some(attr) = assoc_get(funcs, f) {
                lemma_check_args_well_typed(funcs, globals, locals, *args, attr.func_type.params);
            }
        },
    }
}

/// Type checking the arguments of a call yields well-typed arguments, each
/// of the type of its parameter.
pub proof fn lemma_check_args_well_typed(
    funcs: Seq<(Name, FunAttr)>,
    globals: Seq<(Name, StaticAttr)>,
    locals: Seq<(Name, Type)>,
    a: Arguments,
    params: TypeList,
)
    ensures
        spec_check_args(funcs, globals, locals, a, params) matches Ok(a2) ==> args_well_typed(funcs, a2)
            && (args_len(a) == type_list_len(params) ==> args_match(a2, params)),
    decreases a,
{
    match a {
        Arguments::Nil => {},
        Arguments::Cons(x, rest) => match params {
            TypeList::Nil => {},
            TypeList::Cons(t, ts) => {
                lemma_check_expr_well_typed(funcs, globals, locals, *x);
                lemma_check_args_well_typed(funcs, globals, locals, *rest, *ts);
                if let Ok(y) = spec_check_expr(funcs, globals, locals, *x) {
                    lemma_convert_to_well_typed(funcs, y, t);
                }
            },
        },
    }
}


pub open spec fn opt_well_typed(funcs: Seq<(Name, FunAttr)>, e: Option<Box<ASTNode>>) -> bool {
    match e {
        None => true,
        Some(x) => well_typed(funcs, *x),
    }
}

/// A declaration's initialiser, if any, is well typed and of the variable's type.
pub open spec fn decl_well_typed(funcs: Seq<(Name, FunAttr)>, d: VariableDeclaration) -> bool {
    match d.init {
        None => true,
        Some(x) => well_typed(funcs, *x) && x.type_ == d.var_type,
    }
}

/// The typing rules for statements of a function returning `ret`: every
/// expression is well typed and every returned value has type `ret`.
pub open spec fn stmt_well_typed(funcs: Seq<(Name, FunAttr)>, ret: Type, s: Statement) -> bool
    decreases s,
{
    match s {
        Statement::Return(e) => well_typed(funcs, *e) && e.type_ == ret,
        Statement::Expression(e) => well_typed(funcs, *e),
        Statement::If { condition, if_true, if_false } => well_typed(funcs, *condition) && stmt_well_typed(
            funcs,
            ret,
            *if_true,
        ) && match if_false {
            None => true,
            Some(f) => stmt_well_typed(funcs, ret, *f),
        },
        Statement::Compound(b) => items_well_typed(funcs, ret, *b),
        Statement::While { condition, body, .. } => well_typed(funcs, *condition) && stmt_well_typed(
            funcs,
            ret,
            *body,
        ),
        Statement::For { init, condition, increment, body, .. } => (match *init {
            ForInit::InitDecl(d) => decl_well_typed(funcs, d),
            ForInit::InitExp(x) => opt_well_typed(funcs, x),
        }) && opt_well_typed(funcs, condition) && opt_well_typed(funcs, increment) && stmt_well_typed(
            funcs,
            ret,
            *body,
        ),
        Statement::Break(_) | Statement::Continue { .. } | Statement::Null => true,
    }
}

pub open spec fn items_well_typed(funcs: Seq<(Name, FunAttr)>, ret: Type, b: Block) -> bool
    decreases b,
{
    match b {
        Block::Nil => true,
        Block::Cons(item, rest) => (match *item {
            BlockItem::D(Declaration::VariableDeclaration(d)) => decl_well_typed(funcs, d),
            BlockItem::D(Declaration::FunctionDeclaration(_)) => false,
            BlockItem::S(s) => stmt_well_typed(funcs, ret, s),
        }) && items_well_typed(funcs, ret, *rest),
    }
}

pub proof fn lemma_check_opt_well_typed(
    funcs: Seq<(Name, FunAttr)>,
    globals: Seq<(Name, StaticAttr)>,
    locals: Seq<(Name, Type)>,
    e: Option<Box<ASTNode>>,
)
    ensures
        spec_check_opt(funcs, globals, locals, e) matches Ok(e2) ==> opt_well_typed(funcs, e2),
{
    if let Some(x) = e {
        lemma_check_expr_well_typed(funcs, globals, locals, *x);
    }
}

pub proof fn lemma_check_var_decl_well_typed(
    funcs: Seq<(Name, FunAttr)>,
    globals: Seq<(Name, StaticAttr)>,
    ts: TypeState,
    d: VariableDeclaration,
)
    ensures
        spec_check_var_decl(funcs, globals, ts, d) matches Ok((d2, ts2)) ==> decl_well_typed(funcs, d2)
            && ts2.ret == ts.ret,
{
    if d.var_type != Type::Void {
        let ts1 = TypeState { locals: assoc_insert(ts.locals, d.name, d.var_type), ..ts };
        if let Some(x) = d.init {
            lemma_check_expr_well_typed(funcs, globals, ts1.locals, *x);
            if let Ok(y) = spec_check_expr(funcs, globals, ts1.locals, *x) {
                lemma_convert_to_well_typed(funcs, y, d.var_type);
            }
        }
    }
}

/// Type checking a statement yields a well-typed statement: its expressions
/// are well typed and its returned values have the function's return type.
#[verifier::rlimit(60)]
pub proof fn lemma_check_stmt_well_typed(
    funcs: Seq<(Name, FunAttr)>,
    globals: Seq<(Name, StaticAttr)>,
    ts: TypeState,
    s: Statement,
)
    ensures
        spec_check_stmt(funcs, globals, ts, s) matches Ok((s2, ts2)) ==> stmt_well_typed(funcs, ts.ret, s2)
            && ts2.ret == ts.ret,
    decreases s,
{
    match s {
        Statement::Return(e) => {
            lemma_check_expr_well_typed(funcs, globals, ts.locals, *e);
            if let Ok(y) = spec_check_expr(funcs, globals, ts.locals, *e) {
                lemma_convert_to_well_typed(funcs, y, ts.ret);
            }
        },
        Statement::Expression(e) => {
            lemma_check_expr_well_typed(funcs, globals, ts.locals, *e);
        },
        Statement::If { condition, if_true, if_false } => {
            lemma_check_expr_well_typed(funcs, globals, ts.locals, *condition);
            lemma_check_stmt_well_typed(funcs, globals, ts, *if_true);
            if let Ok((_, ts1)) = spec_check_stmt(funcs, globals, ts, *if_true) {
                if let Some(f) = if_false {
                    lemma_check_stmt_well_typed(funcs, globals, ts1, *f);
                }
            }
        },
        Statement::Compound(b) => {
            lemma_check_items_well_typed(funcs, globals, ts, *b);
        },
        Statement::While { condition, body, .. } => {
            lemma_check_expr_well_typed(funcs, globals, ts.locals, *condition);
            lemma_check_stmt_well_typed(funcs, globals, ts, *body);
        },
        Statement::For { init, condition, increment, body, .. } => {
            let init_res: Result<(ForInit, TypeState), ErrorKind> = match *init {
                ForInit::InitDecl(d) => match spec_check_var_decl(funcs, globals, ts, d) {
                    Err(k) => Err(k),
                    Ok((d2, ts1)) => Ok((ForInit::InitDecl(d2), ts1)),
                },
                ForInit::InitExp(x) => match spec_check_opt(funcs, globals, ts.locals, x) {
                    Err(k) => Err(k),
                    Ok(y) => Ok((ForInit::InitExp(y), ts)),
                },
            };
            match *init {
                ForInit::InitDecl(d) => lemma_check_var_decl_well_typed(funcs, globals, ts, d),
                ForInit::InitExp(x) => lemma_check_opt_well_typed(funcs, globals, ts.locals, x),
            }
            if let Ok((_, ts1)) = init_res {
                lemma_check_opt_well_typed(funcs, globals, ts1.locals, condition);
                lemma_check_opt_well_typed(funcs, globals, ts1.locals, increment);
                lemma_check_stmt_well_typed(funcs, globals, ts1, *body);
            }
        },
        Statement::Break(_) | Statement::Continue { .. } | Statement::Null => {},
    }
}

#[verifier::rlimit(30)]
pub proof fn lemma_check_items_well_typed(
    funcs: Seq<(Name, FunAttr)>,
    globals: Seq<(Name, StaticAttr)>,
    ts: TypeState,
    b: Block,
)
    ensures
        spec_check_items(funcs, globals, ts, b) matches Ok((b2, ts2)) ==> items_well_typed(funcs, ts.ret, b2)
            && ts2.ret == ts.ret,
    decreases b,
{
    match b {
        Block::Nil => {},
        Block::Cons(item, rest) => {
            let r: Result<(BlockItem, TypeState), ErrorKind> = match *item {
                BlockItem::D(Declaration::VariableDeclaration(d)) => match spec_check_var_decl(
                    funcs,
                    globals,
                    ts,
                    d,
                ) {
                    Err(k) => Err(k),
                    Ok((d2, ts1)) => Ok((BlockItem::D(Declaration::VariableDeclaration(d2)), ts1)),
                },
                BlockItem::D(Declaration::FunctionDeclaration(_)) => Err(ErrorKind::Semantic),
                BlockItem::S(s) => match spec_check_stmt(funcs, globals, ts, s) {
                    Err(k) => Err(k),
                    Ok((s2, ts1)) => Ok((BlockItem::S(s2), ts1)),
                },
            };
            match *item {
                BlockItem::D(Declaration::VariableDeclaration(d)) => lemma_check_var_decl_well_typed(
                    funcs,
                    globals,
                    ts,
                    d,
                ),
                BlockItem::D(Declaration::FunctionDeclaration(_)) => {},
                BlockItem::S(s) => lemma_check_stmt_well_typed(funcs, globals, ts, s),
            }
            if let Ok((_, ts1)) = r {
                lemma_check_items_well_typed(funcs, globals, ts1, *rest);
            }
        },
    }
}

/// Type checking a function definition yields a body whose expressions are
/// well typed and whose returned values have the function's return type.
pub proof fn lemma_check_function_well_typed(
    funcs: Seq<(Name, FunAttr)>,
    globals: Seq<(Name, StaticAttr)>,
    ts: TypeState,
    f: FunctionDeclaration,
)
    ensures
        spec_check_function(funcs, globals, ts, f) matches Ok((f2, _)) ==> match f2.body {
            Some(b) => items_well_typed(funcs, f.func_type.ret, *b),
            None => true,
        },
{
    let ts1 = TypeState {
        locals: spec_bind_params(ts.locals, f.params, f.func_type.params),
        ret: f.func_type.ret,
    };
    if let Some(b) = f.body {
        lemma_check_items_well_typed(funcs, globals, ts1, *b);
    }
}


/// Type checking keeps every `break` and `continue` naming its innermost loop.
pub proof fn lemma_check_stmt_jumps(
    funcs: Seq<(Name, FunAttr)>,
    globals: Seq<(Name, StaticAttr)>,
    ts: TypeState,
    s: Statement,
    enclosing: Seq<(u64, bool)>,
)
    requires
        jumps_to_innermost(s, enclosing),
    ensures
        spec_check_stmt(funcs, globals, ts, s) matches Ok((s2, _)) ==> jumps_to_innermost(s2, enclosing),
    decreases s,
{
    match s {
        Statement::If { if_true, if_false, .. } => {
            lemma_check_stmt_jumps(funcs, globals, ts, *if_true, enclosing);
            if let Ok((_, ts1)) = spec_check_stmt(funcs, globals, ts, *if_true) {
                if let Some(f) = if_false {
                    lemma_check_stmt_jumps(funcs, globals, ts1, *f, enclosing);
                }
            }
        },
        Statement::Compound(b) => {
            lemma_check_items_jumps(funcs, globals, ts, *b, enclosing);
        },
        Statement::While { body, label, .. } => {
            lemma_check_stmt_jumps(funcs, globals, ts, *body, enclosing.push((label, false)));
        },
        Statement::For { init, body, label, .. } => {
            let init_res: Result<(ForInit, TypeState), ErrorKind> = match *init {
                ForInit::InitDecl(d) => match spec_check_var_decl(funcs, globals, ts, d) {
                    Err(k) => Err(k),
                    Ok((d2, ts1)) => Ok((ForInit::InitDecl(d2), ts1)),
                },
                ForInit::InitExp(x) => match spec_check_opt(funcs, globals, ts.locals, x) {
                    Err(k) => Err(k),
                    Ok(y) => Ok((ForInit::InitExp(y), ts)),
                },
            };
            if let Ok((_, ts1)) = init_res {
                lemma_check_stmt_jumps(funcs, globals, ts1, *body, enclosing.push((label, true)));
            }
        },
        _ => {},
    }
}

pub proof fn lemma_check_items_jumps(
    funcs: Seq<(Name, FunAttr)>,
    globals: Seq<(Name, StaticAttr)>,
    ts: TypeState,
    b: Block,
    enclosing: Seq<(u64, bool)>,
)
    requires
        items_jump_to_innermost(b, enclosing),
    ensures
        spec_check_items(funcs, globals, ts, b) matches Ok((b2, _)) ==> items_jump_to_innermost(b2, enclosing),
    decreases b,
{
    match b {
        Block::Nil => {},
        Block::Cons(item, rest) => {
            let r: Result<(BlockItem, TypeState), ErrorKind> = match *item {
                BlockItem::D(Declaration::VariableDeclaration(d)) => match spec_check_var_decl(
                    funcs,
                    globals,
                    ts,
                    d,
                ) {
                    Err(k) => Err(k),
                    Ok((d2, ts1)) => Ok((BlockItem::D(Declaration::VariableDeclaration(d2)), ts1)),
                },
                BlockItem::D(Declaration::FunctionDeclaration(_)) => Err(ErrorKind::Semantic),
                BlockItem::S(s) => match spec_check_stmt(funcs, globals, ts, s) {
                    Err(k) => Err(k),
                    Ok((s2, ts1)) => Ok((BlockItem::S(s2), ts1)),
                },
            };
            if let BlockItem::S(s) = *item {
                lemma_check_stmt_jumps(funcs, globals, ts, s, enclosing);
            }
            if let Ok((_, ts1)) = r {
                lemma_check_items_jumps(funcs, globals, ts1, *rest, enclosing);
            }
        },
    }
}

/// Type checking a function keeps every `break` and `continue` of its body
/// naming its innermost loop.
pub proof fn lemma_check_function_jumps(
    funcs: Seq<(Name, FunAttr)>,
    globals: Seq<(Name, StaticAttr)>,
    ts: TypeState,
    f: FunctionDeclaration,
)
    requires
        f.body matches Some(b) ==> items_jump_to_innermost(*b, Seq::empty()),
    ensures
        spec_check_function(funcs, globals, ts, f) matches Ok((f2, _)) ==> (f2.body matches Some(b)
            ==> items_jump_to_innermost(*b, Seq::empty())),
{
    let ts1 = TypeState {
        locals: spec_bind_params(ts.locals, f.params, f.func_type.params),
        ret: f.func_type.ret,
    };
    if let Some(b) = f.body {
        lemma_check_items_jumps(funcs, globals, ts1, *b, Seq::empty());
    }
}



/// Whether `y` is `x` itself or `x` under one cast.
pub open spec fn same_or_cast(x: ASTNode, y: ASTNode) -> bool {
    y == x || y.kind == Expression::Cast(y.type_, Box::new(x))
}

/// The operands of an arithmetic or comparison operator are brought to one
/// type, by casts only where a type changes: that type is one of theirs, it
/// is at least as wide as each of them (so no operand is narrowed), and it is
/// unsigned when either is unsigned and both have one size. A shift keeps its
/// left operand and its type.
pub proof fn lemma_binary_operands_converted(
    funcs: Seq<(Name, FunAttr)>,
    globals: Seq<(Name, StaticAttr)>,
    locals: Seq<(Name, Type)>,
    op: BinaryOperator,
    left: ASTNode,
    right: ASTNode,
    t: Type,
)
    requires
        op != BinaryOperator::LogicalAnd,
        op != BinaryOperator::LogicalOr,
    ensures
        ({
            let e = ASTNode { kind: Expression::Binary { op, left: Box::new(left), right: Box::new(right) }, type_: t };
            spec_check_expr(funcs, globals, locals, e) matches Ok(e2) ==> {
                let l = spec_check_expr(funcs, globals, locals, left)->Ok_0;
                let r = spec_check_expr(funcs, globals, locals, right)->Ok_0;
                e2.kind matches Expression::Binary { op: op2, left: l2, right: r2 } && op2 == op
                    && same_or_cast(l, *l2) && same_or_cast(r, *r2) && l2.type_ == r2.type_
                    && if op == BinaryOperator::BitwiseShiftLeft || op == BinaryOperator::BitwiseShiftRight {
                    *l2 == l && e2.type_ == l.type_
                } else {
                    &&& (l2.type_ == l.type_ || l2.type_ == r.type_)
                    &&& type_size(l2.type_) >= type_size(l.type_)
                    &&& type_size(l2.type_) >= type_size(r.type_)
                    &&& (type_size(l.type_) == type_size(r.type_) && (is_unsigned_type(l.type_)
                        || is_unsigned_type(r.type_)) ==> is_unsigned_type(l2.type_))
                }
            }
        }),
{
}

} // verus!
