use crate::ast::{
    consecutive, const_of_literal, extract_base_variable, items_loop_ids, loop_ids, is_lvalue_node, mk, spec_const_of_literal, spec_extract_base_variable, spec_is_lvalue_node, ASTNode, Arguments,
    Block, BlockItem, Declaration, Expression, ForInit, FuncType, FunctionDeclaration, Name,
    NameList, Program, Statement, TypeList, VariableDeclaration,
};
use crate::errors::{CompilerError, ErrorKind};
use crate::lexer::{
    BinaryOperator, Keyword, StorageClass, Symbol, Token, Type, UnaryOperator, UnaryOrBinaryOp,
};
use vstd::prelude::*;

verus! {

// ---------------------------------------------------------------------------
// The model of the parser. Positions index the token sequence; reading past
// its end gives `EOF`. A result carries the parsed value and the position
// after it (and, for statements, the next free loop label).
// ---------------------------------------------------------------------------

pub type ExprRes<T> = Result<(T, int), ErrorKind>;

pub type StmtRes<T> = Result<(T, int, int), ErrorKind>;

pub open spec fn tok(toks: Seq<Token>, pos: int) -> Token {
    if 0 <= pos < toks.len() {
        toks[pos]
    } else {
        Token::EOF
    }
}

/// The position after popping one token (popping nothing at the end).
pub open spec fn adv(toks: Seq<Token>, pos: int) -> int {
    if pos < toks.len() {
        pos + 1
    } else {
        pos
    }
}

/// Whether a token is present at `pos` and equals `t`.
pub open spec fn at(toks: Seq<Token>, pos: int, t: Token) -> bool {
    0 <= pos < toks.len() && toks[pos] == t
}

/// Whether `p` is a position strictly after `pos` inside the tokens.
pub open spec fn moved(toks: Seq<Token>, p: int, pos: int) -> bool {
    pos < p <= toks.len()
}

pub open spec fn out_of_range(toks: Seq<Token>, pos: int) -> bool {
    pos < 0 || pos > toks.len()
}

pub open spec fn sym_tok(s: Symbol) -> Token {
    Token::Symbol(s)
}

pub open spec fn spec_precedence(op: Symbol) -> i32 {
    match op {
        Symbol::Ambiguous(_) => 45,
        Symbol::Binary(op) => match op {
            BinaryOperator::Multiply | BinaryOperator::Divide | BinaryOperator::Modulo => 50,
            BinaryOperator::BitwiseShiftLeft | BinaryOperator::BitwiseShiftRight => 45,
            BinaryOperator::Addition | BinaryOperator::Subtraction => 45,
            BinaryOperator::LessThan
            | BinaryOperator::LessThanOrEquals
            | BinaryOperator::GreaterThan
            | BinaryOperator::GreaterThanOrEquals => 35,
            BinaryOperator::Equals | BinaryOperator::NotEquals => 30,
            BinaryOperator::BitwiseAnd => 25,
            BinaryOperator::BitwiseXor => 20,
            BinaryOperator::BitwiseOr => 15,
            BinaryOperator::LogicalAnd => 10,
            BinaryOperator::LogicalOr => 5,
            BinaryOperator::Ternary => 3,
            BinaryOperator::Assign => 1,
        },
        _ => -1i32,
    }
}

pub open spec fn has_dup(s: Seq<Type>) -> bool {
    exists|i: int, j: int| 0 <= i < j < s.len() && s[i] == s[j]
}

/// The type that a list of type specifiers denotes.
pub open spec fn spec_parse_type_specifier(types: Seq<Type>) -> Result<Type, ErrorKind> {
    if types.len() == 0 || has_dup(types) {
        Err(ErrorKind::Syntax)
    } else if types.contains(Type::Signed) && types.contains(Type::Unsigned) {
        Err(ErrorKind::Syntax)
    } else if types.contains(Type::Unsigned) && types.contains(Type::Long) {
        Ok(Type::ULong)
    } else if types.contains(Type::Unsigned) {
        Ok(Type::UInt)
    } else if types.contains(Type::Long) {
        Ok(Type::Long)
    } else {
        Ok(Type::Int)
    }
}

pub open spec fn types_of(s: Seq<Keyword>) -> Seq<Type>
    decreases s.len(),
{
    if s.len() == 0 {
        Seq::empty()
    } else {
        match s.last() {
            Keyword::Type(t) => types_of(s.drop_last()).push(t),
            _ => types_of(s.drop_last()),
        }
    }
}

pub open spec fn classes_of(s: Seq<Keyword>) -> Seq<StorageClass>
    decreases s.len(),
{
    if s.len() == 0 {
        Seq::empty()
    } else {
        match s.last() {
            Keyword::StorageClass(c) => classes_of(s.drop_last()).push(c),
            _ => classes_of(s.drop_last()),
        }
    }
}

/// The type and storage class that a list of specifiers denotes.
pub open spec fn spec_parse_type_and_storage_class(specifiers: Seq<Keyword>) -> Result<
    (Type, Option<StorageClass>),
    ErrorKind,
> {
    let classes = classes_of(specifiers);
    match spec_parse_type_specifier(types_of(specifiers)) {
        Err(k) => Err(k),
        Ok(t) => if classes.len() > 1 {
            Err(ErrorKind::Syntax)
        } else if classes.len() == 1 {
            Ok((t, Some(classes[0])))
        } else {
            Ok((t, None))
        },
    }
}

pub open spec fn is_type_keyword(t: Token) -> bool {
    t matches Token::Keyword(Keyword::Type(_))
}

pub open spec fn is_specifier_keyword(t: Token) -> bool {
    t matches Token::Keyword(Keyword::Type(_)) || t matches Token::Keyword(
        Keyword::StorageClass(_),
    )
}

pub open spec fn keyword_of(t: Token) -> Keyword {
    match t {
        Token::Keyword(k) => k,
        _ => Keyword::Return,
    }
}

/// The run of specifier keywords at `pos` (type keywords only, unless
/// `storage` allows storage classes too) and the position after it.
pub open spec fn collect_specifiers(toks: Seq<Token>, pos: int, storage: bool) -> (
    Seq<Keyword>,
    int,
)
    decreases toks.len() - pos,
{
    if 0 <= pos < toks.len() && (if storage {
        is_specifier_keyword(toks[pos])
    } else {
        is_type_keyword(toks[pos])
    }) {
        let (rest, p) = collect_specifiers(toks, pos + 1, storage);
        (seq![keyword_of(toks[pos])] + rest, p)
    } else {
        (Seq::empty(), pos)
    }
}

pub open spec fn spec_incdec(e: ASTNode, op: UnaryOperator, is_prefix: bool, p: int) -> ExprRes<
    ASTNode,
> {
    if spec_is_lvalue_node(e.kind) {
        if is_prefix {
            Ok((mk(Expression::Prefix(op, Box::new(e))), p))
        } else {
            Ok((mk(Expression::Postfix(op, Box::new(e))), p))
        }
    } else {
        Err(ErrorKind::Semantic)
    }
}

/// A primary expression: a constant, a parenthesised expression, a cast, a
/// variable or a call.
pub open spec fn spec_primary(toks: Seq<Token>, pos: int) -> ExprRes<ASTNode>
    decreases toks.len() - pos, 1nat,
{
    if out_of_range(toks, pos) {
        Err(ErrorKind::Syntax)
    } else {
        match tok(toks, pos) {
            Token::NumberLiteral(v, suffix) => Ok(
                (mk(Expression::Constant(spec_const_of_literal(v, suffix))), pos + 1),
            ),
            Token::Symbol(s) => {
                if s != Symbol::OpenParenthesis {
                    Err(ErrorKind::Syntax)
                } else if is_type_keyword(tok(toks, pos + 1)) {
                    let (specs, p2) = collect_specifiers(toks, pos + 1, false);
                    if !moved(toks, p2, pos) || !at(toks, p2, sym_tok(Symbol::CloseParenthesis)) {
                        Err(ErrorKind::Syntax)
                    } else {
                        match spec_parse_type_specifier(types_of(specs)) {
                            Err(k) => Err(k),
                            Ok(t) => match spec_unary_or_primary(toks, p2 + 1) {
                                Err(k) => Err(k),
                                Ok((e, p3)) => Ok((mk(Expression::Cast(t, Box::new(e))), p3)),
                            },
                        }
                    }
                } else {
                    match spec_binop(toks, pos + 1, 0) {
                        Err(k) => Err(k),
                        Ok((e, p2)) => if at(toks, p2, sym_tok(Symbol::CloseParenthesis)) {
                            Ok((e, p2 + 1))
                        } else {
                            Err(ErrorKind::Syntax)
                        },
                    }
                }
            },
            Token::Name(id) => {
                if tok(toks, pos + 1) == sym_tok(Symbol::OpenParenthesis) {
                    match spec_arguments(toks, pos + 2) {
                        Err(k) => Err(k),
                        Ok((args, p2)) => Ok(
                            (mk(Expression::FunctionCall(Name::Source(id), Box::new(args))), p2),
                        ),
                    }
                } else {
                    Ok((mk(Expression::Variable(Name::Source(id))), pos + 1))
                }
            },
            _ => Err(ErrorKind::Syntax),
        }
    }
}

/// A unary expression or a primary expression with an optional postfix
/// increment or decrement.
pub open spec fn spec_unary_or_primary(toks: Seq<Token>, pos: int) -> ExprRes<ASTNode>
    decreases toks.len() - pos, 2nat,
{
    if out_of_range(toks, pos) {
        Err(ErrorKind::Syntax)
    } else {
        match tok(toks, pos) {
            Token::Symbol(Symbol::Unary(op)) => match spec_unary_or_primary(toks, pos + 1) {
                Err(k) => Err(k),
                Ok((e, p1)) => if op == UnaryOperator::Increment || op
                    == UnaryOperator::Decrement {
                    spec_incdec(e, op, true, p1)
                } else {
                    Ok((mk(Expression::Unary(op, Box::new(e))), p1))
                },
            },
            Token::Symbol(Symbol::Ambiguous(a)) => match spec_unary_or_primary(toks, pos + 1) {
                Err(k) => Err(k),
                Ok((e, p1)) => {
                    let op = if a == UnaryOrBinaryOp::Addition {
                        UnaryOperator::UnaryAdd
                    } else {
                        UnaryOperator::Negate
                    };
                    Ok((mk(Expression::Unary(op, Box::new(e))), p1))
                },
            },
            _ => match spec_primary(toks, pos) {
                Err(k) => Err(k),
                Ok((e, p1)) => match tok(toks, p1) {
                    Token::Symbol(Symbol::Unary(op)) => if op == UnaryOperator::Increment || op
                        == UnaryOperator::Decrement {
                        spec_incdec(e, op, false, p1 + 1)
                    } else {
                        Ok((e, p1))
                    },
                    _ => Ok((e, p1)),
                },
            },
        }
    }
}

/// The binary operator that `x op= y` applies.
pub open spec fn compound_operator(s: Symbol) -> BinaryOperator {
    match s {
        Symbol::Binary(op) => op,
        Symbol::Ambiguous(UnaryOrBinaryOp::Addition) => BinaryOperator::Addition,
        _ => BinaryOperator::Subtraction,
    }
}

/// An expression whose operators all bind at least as tightly as `min`
/// (precedence climbing).
pub open spec fn spec_binop(toks: Seq<Token>, pos: int, min: i32) -> ExprRes<ASTNode>
    decreases toks.len() - pos, 3nat,
{
    if out_of_range(toks, pos) {
        Err(ErrorKind::Syntax)
    } else {
        match spec_unary_or_primary(toks, pos) {
            Err(k) => Err(k),
            Ok((left, p1)) => if !moved(toks, p1, pos) {
                Err(ErrorKind::Syntax)
            } else {
                spec_binop_loop(toks, p1, left, min)
            },
        }
    }
}

/// The operator loop of precedence climbing, with `left` parsed so far.
pub open spec fn spec_binop_loop(toks: Seq<Token>, pos: int, left: ASTNode, min: i32) -> ExprRes<
    ASTNode,
>
    decreases toks.len() - pos, 4nat,
{
    if out_of_range(toks, pos) {
        Err(ErrorKind::Syntax)
    } else {
        match tok(toks, pos) {
            Token::Symbol(s) => {
                if !(s is Binary || s is Ambiguous) || spec_precedence(s) < min {
                    Ok((left, pos))
                } else if tok(toks, pos + 1) == sym_tok(Symbol::Binary(BinaryOperator::Assign)) {
                    if !spec_is_lvalue_node(left.kind) {
                        Err(ErrorKind::Semantic)
                    } else {
                        match spec_binop(toks, pos + 2, 1) {
                            Err(k) => Err(k),
                            Ok((right, p2)) => match spec_extract_base_variable(left.kind) {
                                None => Err(ErrorKind::Semantic),
                                Some(v) => {
                                    let bin = mk(
                                        Expression::Binary {
                                            op: compound_operator(s),
                                            left: Box::new(mk(Expression::Variable(v))),
                                            right: Box::new(right),
                                        },
                                    );
                                    let next = mk(
                                        Expression::Assignment {
                                            left: Box::new(left),
                                            right: Box::new(bin),
                                        },
                                    );
                                    if !moved(toks, p2, pos) {
                                        Err(ErrorKind::Syntax)
                                    } else {
                                        spec_binop_loop(toks, p2, next, min)
                                    }
                                },
                            },
                        }
                    }
                } else if s == Symbol::Binary(BinaryOperator::Assign) {
                    if !spec_is_lvalue_node(left.kind) {
                        Err(ErrorKind::Semantic)
                    } else {
                        match spec_binop(toks, pos + 1, 1) {
                            Err(k) => Err(k),
                            Ok((right, p2)) => {
                                let next = mk(
                                    Expression::Assignment {
                                        left: Box::new(left),
                                        right: Box::new(right),
                                    },
                                );
                                if !moved(toks, p2, pos) {
                                    Err(ErrorKind::Syntax)
                                } else {
                                    spec_binop_loop(toks, p2, next, min)
                                }
                            },
                        }
                    }
                } else if s == Symbol::Binary(BinaryOperator::Ternary) {
                    match spec_condition(toks, pos + 1) {
                        Err(k) => Err(k),
                        Ok((middle, p2)) => if !moved(toks, p2, pos) {
                            Err(ErrorKind::Syntax)
                        } else {
                            match spec_binop(toks, p2, 3) {
                                Err(k) => Err(k),
                                Ok((right, p3)) => {
                                    let next = mk(
                                        Expression::Condition {
                                            condition: Box::new(left),
                                            if_true: Box::new(middle),
                                            if_false: Box::new(right),
                                        },
                                    );
                                    if !moved(toks, p3, pos) {
                                        Err(ErrorKind::Syntax)
                                    } else {
                                        spec_binop_loop(toks, p3, next, min)
                                    }
                                },
                            }
                        },
                    }
                } else {
                    match spec_binop(toks, pos + 1, (spec_precedence(s) + 1) as i32) {
                        Err(k) => Err(k),
                        Ok((right, p2)) => {
                            let next = mk(
                                Expression::Binary {
                                    op: compound_operator(s),
                                    left: Box::new(left),
                                    right: Box::new(right),
                                },
                            );
                            if !moved(toks, p2, pos) {
                                Err(ErrorKind::Syntax)
                            } else {
                                spec_binop_loop(toks, p2, next, min)
                            }
                        },
                    }
                }
            },
            _ => Err(ErrorKind::Syntax),
        }
    }
}

/// The middle of a conditional expression, up to and including the colon.
pub open spec fn spec_condition(toks: Seq<Token>, pos: int) -> ExprRes<ASTNode>
    decreases toks.len() - pos, 4nat,
{
    if out_of_range(toks, pos) {
        Err(ErrorKind::Syntax)
    } else {
        match spec_binop(toks, pos, 0) {
            Err(k) => Err(k),
            Ok((m, p1)) => if at(toks, p1, sym_tok(Symbol::Colon)) {
                Ok((m, p1 + 1))
            } else {
                Err(ErrorKind::Syntax)
            },
        }
    }
}

/// The arguments of a call, after the opening parenthesis, through the closing one.
pub open spec fn spec_arguments(toks: Seq<Token>, pos: int) -> ExprRes<Arguments>
    decreases toks.len() - pos, 4nat,
{
    if out_of_range(toks, pos) {
        Err(ErrorKind::Syntax)
    } else if at(toks, pos, sym_tok(Symbol::CloseParenthesis)) {
        Ok((Arguments::Nil, pos + 1))
    } else {
        match spec_binop(toks, pos, 0) {
            Err(k) => Err(k),
            Ok((e, p1)) => if !moved(toks, p1, pos) {
                Err(ErrorKind::Syntax)
            } else {
                match spec_arguments_rest(toks, p1) {
                    Err(k) => Err(k),
                    Ok((rest, p2)) => Ok((Arguments::Cons(Box::new(e), Box::new(rest)), p2)),
                }
            },
        }
    }
}

/// The arguments after the first: `, e` repeated, then the closing parenthesis.
pub open spec fn spec_arguments_rest(toks: Seq<Token>, pos: int) -> ExprRes<Arguments>
    decreases toks.len() - pos, 4nat,
{
    if out_of_range(toks, pos) {
        Err(ErrorKind::Syntax)
    } else if at(toks, pos, sym_tok(Symbol::CloseParenthesis)) {
        Ok((Arguments::Nil, pos + 1))
    } else if !at(toks, pos, sym_tok(Symbol::Comma)) {
        Err(ErrorKind::Syntax)
    } else {
        match spec_binop(toks, pos + 1, 0) {
            Err(k) => Err(k),
            Ok((e, p1)) => if !moved(toks, p1, pos) {
                Err(ErrorKind::Syntax)
            } else {
                match spec_arguments_rest(toks, p1) {
                    Err(k) => Err(k),
                    Ok((rest, p2)) => Ok((Arguments::Cons(Box::new(e), Box::new(rest)), p2)),
                }
            },
        }
    }
}

/// A variable declaration after its specifiers; `name` is given when the
/// caller has already read it.
pub open spec fn spec_declaration(
    toks: Seq<Token>,
    pos: int,
    t: Type,
    sc: Option<StorageClass>,
    name: Option<Name>,
) -> ExprRes<VariableDeclaration> {
    let (ident, p1) = match name {
        Some(n) => (Some(n), pos),
        None => match tok(toks, pos) {
            Token::Name(id) => (Some(Name::Source(id)), adv(toks, pos)),
            _ => (None, adv(toks, pos)),
        },
    };
    match ident {
        None => Err(ErrorKind::Syntax),
        Some(n) => if at(toks, p1, sym_tok(Symbol::Binary(BinaryOperator::Assign))) {
            match spec_binop(toks, p1 + 1, 0) {
                Err(k) => Err(k),
                Ok((e, p2)) => Ok(
                    (
                        VariableDeclaration {
                            name: n,
                            init: Some(Box::new(e)),
                            storage_class: sc,
                            var_type: t,
                        },
                        p2,
                    ),
                ),
            }
        } else {
            Ok((VariableDeclaration { name: n, init: None, storage_class: sc, var_type: t }, p1))
        },
    }
}

/// The initialiser clause of a `for` loop (not including its semicolon).
pub open spec fn spec_for_init(toks: Seq<Token>, pos: int) -> ExprRes<ForInit> {
    if is_type_keyword(tok(toks, pos)) {
        let (specs, p1) = collect_specifiers(toks, pos, true);
        match spec_parse_type_and_storage_class(specs) {
            Err(k) => Err(k),
            Ok((t, sc)) => match spec_declaration(toks, p1, t, sc, None) {
                Err(k) => Err(k),
                Ok((d, p2)) => Ok((ForInit::InitDecl(d), p2)),
            },
        }
    } else if tok(toks, pos) == sym_tok(Symbol::Semicolon) {
        Ok((ForInit::InitExp(None), pos))
    } else {
        match spec_binop(toks, pos, 0) {
            Err(k) => Err(k),
            Ok((e, p1)) => Ok((ForInit::InitExp(Some(Box::new(e))), p1)),
        }
    }
}

/// An optional expression that is absent when the next token is `stop`.
pub open spec fn spec_optional_expression(toks: Seq<Token>, pos: int, stop: Symbol) -> ExprRes<
    Option<Box<ASTNode>>,
> {
    if tok(toks, pos) == sym_tok(stop) {
        Ok((None, pos))
    } else {
        match spec_binop(toks, pos, 0) {
            Err(k) => Err(k),
            Ok((e, p1)) => Ok((Some(Box::new(e)), p1)),
        }
    }
}

/// A statement, with `lab` the next free loop label.
pub open spec fn spec_statement(toks: Seq<Token>, pos: int, lab: int) -> StmtRes<Statement>
    decreases toks.len() - pos, 2nat,
{
    if out_of_range(toks, pos) {
        Err(ErrorKind::Syntax)
    } else {
        match tok(toks, pos) {
            Token::Keyword(k) => {
                let p = pos + 1;
                match k {
                    Keyword::Return => match spec_binop(toks, p, 0) {
                        Err(e) => Err(e),
                        Ok((e, p1)) => if at(toks, p1, sym_tok(Symbol::Semicolon)) {
                            Ok((Statement::Return(Box::new(e)), p1 + 1, lab))
                        } else {
                            Err(ErrorKind::Syntax)
                        },
                    },
                    Keyword::If => if !at(toks, p, sym_tok(Symbol::OpenParenthesis)) {
                        Err(ErrorKind::Syntax)
                    } else {
                        match spec_binop(toks, p + 1, 0) {
                            Err(e) => Err(e),
                            Ok((c, p1)) => if !at(toks, p1, sym_tok(Symbol::CloseParenthesis))
                                || !moved(toks, p1 + 1, pos) {
                                Err(ErrorKind::Syntax)
                            } else {
                                match spec_statement(toks, p1 + 1, lab) {
                                    Err(e) => Err(e),
                                    Ok((body, p2, l2)) => if tok(toks, p2) == Token::Keyword(
                                        Keyword::Else,
                                    ) {
                                        if !moved(toks, p2 + 1, pos) {
                                            Err(ErrorKind::Syntax)
                                        } else {
                                            match spec_statement(toks, p2 + 1, l2) {
                                                Err(e) => Err(e),
                                                Ok((else_body, p3, l3)) => Ok(
                                                    (
                                                        Statement::If {
                                                            condition: Box::new(c),
                                                            if_true: Box::new(body),
                                                            if_false: Some(Box::new(else_body)),
                                                        },
                                                        p3,
                                                        l3,
                                                    ),
                                                ),
                                            }
                                        }
                                    } else {
                                        Ok(
                                            (
                                                Statement::If {
                                                    condition: Box::new(c),
                                                    if_true: Box::new(body),
                                                    if_false: None,
                                                },
                                                p2,
                                                l2,
                                            ),
                                        )
                                    },
                                }
                            },
                        }
                    },
                    Keyword::Else => Err(ErrorKind::Syntax),
                    Keyword::While => if lab < 0 || lab >= u64::MAX {
                        Err(ErrorKind::Syntax)
                    } else if !at(toks, p, sym_tok(Symbol::OpenParenthesis)) {
                        Err(ErrorKind::Syntax)
                    } else {
                        match spec_binop(toks, p + 1, 0) {
                            Err(e) => Err(e),
                            Ok((c, p1)) => if !at(toks, p1, sym_tok(Symbol::CloseParenthesis))
                                || !moved(toks, p1 + 1, pos) {
                                Err(ErrorKind::Syntax)
                            } else {
                                match spec_statement(toks, p1 + 1, lab + 1) {
                                    Err(e) => Err(e),
                                    Ok((body, p2, l2)) => Ok(
                                        (
                                            Statement::While {
                                                condition: Box::new(c),
                                                body: Box::new(body),
                                                label: lab as u64,
                                                is_do_while: false,
                                            },
                                            p2,
                                            l2,
                                        ),
                                    ),
                                }
                            },
                        }
                    },
                    Keyword::Break => Ok((Statement::Break(0), p, lab)),
                    Keyword::Continue => Ok((Statement::Continue { label: 0, is_for: false }, p, lab)),
                    Keyword::Do => if lab < 0 || lab >= u64::MAX {
                        Err(ErrorKind::Syntax)
                    } else {
                        match spec_statement(toks, p, lab + 1) {
                            Err(e) => Err(e),
                            Ok((body, p1, l1)) => if !at(toks, p1, Token::Keyword(Keyword::While))
                                || !at(toks, p1 + 1, sym_tok(Symbol::OpenParenthesis)) {
                                Err(ErrorKind::Syntax)
                            } else {
                                match spec_binop(toks, p1 + 2, 0) {
                                    Err(e) => Err(e),
                                    Ok((c, p2)) => if !at(
                                        toks,
                                        p2,
                                        sym_tok(Symbol::CloseParenthesis),
                                    ) || !at(toks, p2 + 1, sym_tok(Symbol::Semicolon)) {
                                        Err(ErrorKind::Syntax)
                                    } else {
                                        Ok(
                                            (
                                                Statement::While {
                                                    condition: Box::new(c),
                                                    body: Box::new(body),
                                                    label: lab as u64,
                                                    is_do_while: true,
                                                },
                                                p2 + 2,
                                                l1,
                                            ),
                                        )
                                    },
                                }
                            },
                        }
                    },
                    Keyword::For => if !at(toks, p, sym_tok(Symbol::OpenParenthesis)) {
                        Err(ErrorKind::Syntax)
                    } else if lab < 0 || lab >= u64::MAX {
                        Err(ErrorKind::Syntax)
                    } else {
                        match spec_for_init(toks, p + 1) {
                            Err(e) => Err(e),
                            Ok((init, p1)) => if !at(toks, p1, sym_tok(Symbol::Semicolon)) {
                                Err(ErrorKind::Syntax)
                            } else {
                                match spec_optional_expression(toks, p1 + 1, Symbol::Semicolon) {
                                    Err(e) => Err(e),
                                    Ok((c, p2)) => if !at(toks, p2, sym_tok(Symbol::Semicolon)) {
                                        Err(ErrorKind::Syntax)
                                    } else {
                                        match spec_optional_expression(
                                            toks,
                                            p2 + 1,
                                            Symbol::CloseParenthesis,
                                        ) {
                                            Err(e) => Err(e),
                                            Ok((inc, p3)) => if !at(
                                                toks,
                                                p3,
                                                sym_tok(Symbol::CloseParenthesis),
                                            ) || !moved(toks, p3 + 1, pos) {
                                                Err(ErrorKind::Syntax)
                                            } else {
                                                match spec_statement(toks, p3 + 1, lab + 1) {
                                                    Err(e) => Err(e),
                                                    Ok((body, p4, l4)) => Ok(
                                                        (
                                                            Statement::For {
                                                                init: Box::new(init),
                                                                condition: c,
                                                                increment: inc,
                                                                body: Box::new(body),
                                                                label: lab as u64,
                                                            },
                                                            p4,
                                                            l4,
                                                        ),
                                                    ),
                                                }
                                            },
                                        }
                                    },
                                }
                            },
                        }
                    },
                    _ => Err(ErrorKind::Syntax),
                }
            },
            Token::Symbol(Symbol::OpenBrace) => match spec_block_items(toks, pos + 1, lab) {
                Err(e) => Err(e),
                Ok((b, p1, l1)) => if at(toks, p1, sym_tok(Symbol::CloseBrace)) {
                    Ok((Statement::Compound(Box::new(b)), p1 + 1, l1))
                } else {
                    Err(ErrorKind::Syntax)
                },
            },
            Token::Symbol(Symbol::Semicolon) => Ok((Statement::Null, pos + 1, lab)),
            _ => match spec_binop(toks, pos, 0) {
                Err(e) => Err(e),
                Ok((e, p1)) => if at(toks, p1, sym_tok(Symbol::Semicolon)) {
                    Ok((Statement::Expression(Box::new(e)), p1 + 1, lab))
                } else {
                    Err(ErrorKind::Syntax)
                },
            },
        }
    }
}

/// A block item: a variable declaration or a statement.
pub open spec fn spec_block_item(toks: Seq<Token>, pos: int, lab: int) -> StmtRes<BlockItem>
    decreases toks.len() - pos, 3nat,
{
    if out_of_range(toks, pos) {
        Err(ErrorKind::Syntax)
    } else if is_specifier_keyword(tok(toks, pos)) {
        let (specs, p1) = collect_specifiers(toks, pos, true);
        match spec_parse_type_and_storage_class(specs) {
            Err(e) => Err(e),
            Ok((t, sc)) => match spec_declaration(toks, p1, t, sc, None) {
                Err(e) => Err(e),
                Ok((d, p2)) => if tok(toks, p2) == sym_tok(Symbol::OpenParenthesis) {
                    Err(ErrorKind::Semantic)
                } else if !at(toks, p2, sym_tok(Symbol::Semicolon)) {
                    Err(ErrorKind::Syntax)
                } else {
                    Ok(
                        (
                            BlockItem::D(Declaration::VariableDeclaration(d)),
                            p2 + 1,
                            lab,
                        ),
                    )
                },
            },
        }
    } else {
        match spec_statement(toks, pos, lab) {
            Err(e) => Err(e),
            Ok((st, p1, l1)) => Ok((BlockItem::S(st), p1, l1)),
        }
    }
}

/// Block items up to (not including) the closing brace.
pub open spec fn spec_block_items(toks: Seq<Token>, pos: int, lab: int) -> StmtRes<Block>
    decreases toks.len() - pos, 4nat,
{
    if out_of_range(toks, pos) {
        Err(ErrorKind::Syntax)
    } else if tok(toks, pos) == sym_tok(Symbol::CloseBrace) {
        Ok((Block::Nil, pos, lab))
    } else if tok(toks, pos) == Token::EOF {
        Err(ErrorKind::Syntax)
    } else {
        match spec_block_item(toks, pos, lab) {
            Err(e) => Err(e),
            Ok((item, p1, l1)) => if !moved(toks, p1, pos) {
                Err(ErrorKind::Syntax)
            } else {
                match spec_block_items(toks, p1, l1) {
                    Err(e) => Err(e),
                    Ok((rest, p2, l2)) => Ok((Block::Cons(Box::new(item), Box::new(rest)), p2, l2)),
                }
            },
        }
    }
}

/// Parameters after the opening parenthesis (which is not `)`).
pub open spec fn spec_params_rest(toks: Seq<Token>, pos: int) -> Result<
    (NameList, TypeList, int),
    ErrorKind,
>
    decreases toks.len() - pos,
{
    if out_of_range(toks, pos) {
        Err(ErrorKind::Syntax)
    } else {
        let (specs, p1) = collect_specifiers(toks, pos, false);
        if specs.len() == 0 {
            Err(ErrorKind::Syntax)
        } else {
            match spec_parse_type_and_storage_class(specs) {
                Err(e) => Err(e),
                Ok((t, _)) => match tok(toks, p1) {
                    Token::Name(id) => {
                        let p2 = p1 + 1;
                        if at(toks, p2, sym_tok(Symbol::CloseParenthesis)) {
                            Ok(
                                (
                                    NameList::Cons(Name::Source(id), Box::new(NameList::Nil)),
                                    TypeList::Cons(t, Box::new(TypeList::Nil)),
                                    p2 + 1,
                                ),
                            )
                        } else if !at(toks, p2, sym_tok(Symbol::Comma)) || !moved(toks, p2 + 1, pos) {
                            Err(ErrorKind::Syntax)
                        } else {
                            match spec_params_rest(toks, p2 + 1) {
                                Err(e) => Err(e),
                                Ok((ns, ts, p3)) => Ok(
                                    (
                                        NameList::Cons(Name::Source(id), Box::new(ns)),
                                        TypeList::Cons(t, Box::new(ts)),
                                        p3,
                                    ),
                                ),
                            }
                        }
                    },
                    _ => Err(ErrorKind::Syntax),
                },
            }
        }
    }
}

/// A parameter list, parentheses included.
pub open spec fn spec_params(toks: Seq<Token>, pos: int) -> Result<
    (NameList, TypeList, int),
    ErrorKind,
> {
    if !at(toks, pos, sym_tok(Symbol::OpenParenthesis)) {
        Err(ErrorKind::Syntax)
    } else if at(toks, pos + 1, sym_tok(Symbol::CloseParenthesis)) {
        Ok((NameList::Nil, TypeList::Nil, pos + 2))
    } else {
        spec_params_rest(toks, pos + 1)
    }
}

/// A top-level declaration: a function (prototype or definition) or a
/// file-scope variable.
pub open spec fn spec_top_level(toks: Seq<Token>, pos: int, lab: int) -> StmtRes<Declaration> {
    let (specs, p1) = collect_specifiers(toks, pos, true);
    match spec_parse_type_and_storage_class(specs) {
        Err(e) => Err(e),
        Ok((t, sc)) => match tok(toks, p1) {
            Token::Name(id) => {
                let p2 = p1 + 1;
                let next = tok(toks, p2);
                if next == sym_tok(Symbol::OpenParenthesis) {
                    match spec_params(toks, p2) {
                        Err(e) => Err(e),
                        Ok((names, types, p3)) => {
                            let ft = FuncType { params: types, ret: t };
                            if at(toks, p3, sym_tok(Symbol::Semicolon)) {
                                Ok(
                                    (
                                        Declaration::FunctionDeclaration(
                                            FunctionDeclaration {
                                                name: Name::Source(id),
                                                params: names,
                                                body: None,
                                                storage_class: sc,
                                                func_type: ft,
                                            },
                                        ),
                                        p3 + 1,
                                        lab,
                                    ),
                                )
                            } else if !at(toks, p3, sym_tok(Symbol::OpenBrace)) {
                                Err(ErrorKind::Syntax)
                            } else {
                                match spec_block_items(toks, p3 + 1, lab) {
                                    Err(e) => Err(e),
                                    Ok((b, p4, l4)) => if at(toks, p4, sym_tok(Symbol::CloseBrace)) {
                                        Ok(
                                            (
                                                Declaration::FunctionDeclaration(
                                                    FunctionDeclaration {
                                                        name: Name::Source(id),
                                                        params: names,
                                                        body: Some(Box::new(b)),
                                                        storage_class: sc,
                                                        func_type: ft,
                                                    },
                                                ),
                                                p4 + 1,
                                                l4,
                                            ),
                                        )
                                    } else {
                                        Err(ErrorKind::Syntax)
                                    },
                                }
                            }
                        },
                    }
                } else if next == sym_tok(Symbol::Binary(BinaryOperator::Assign)) || next == sym_tok(
                    Symbol::Semicolon,
                ) {
                    match spec_declaration(toks, p2, t, sc, Some(Name::Source(id))) {
                        Err(e) => Err(e),
                        Ok((d, p3)) => Ok(
                            (Declaration::VariableDeclaration(d), adv(toks, p3), lab),
                        ),
                    }
                } else {
                    Err(ErrorKind::Syntax)
                }
            },
            _ => Err(ErrorKind::Syntax),
        },
    }
}

/// Top-level declarations from `pos` up to and including `EOF`.
pub open spec fn spec_program_from(toks: Seq<Token>, pos: int, lab: int) -> ExprRes<Program>
    decreases toks.len() - pos,
{
    if out_of_range(toks, pos) {
        Err(ErrorKind::Syntax)
    } else if tok(toks, pos) == Token::EOF {
        if pos < toks.len() {
            Ok((Program::Nil, pos + 1))
        } else {
            Err(ErrorKind::Syntax)
        }
    } else {
        match spec_top_level(toks, pos, lab) {
            Err(e) => Err(e),
            Ok((d, p1, l1)) => if !moved(toks, p1, pos) {
                Err(ErrorKind::Syntax)
            } else {
                match spec_program_from(toks, p1, l1) {
                    Err(e) => Err(e),
                    Ok((rest, p2)) => Ok((Program::Cons(Box::new(d), Box::new(rest)), p2)),
                }
            },
        }
    }
}

/// The parse of a whole token sequence.
pub open spec fn spec_parse_program(toks: Seq<Token>) -> Result<Program, ErrorKind> {
    match spec_program_from(toks, 0, 0) {
        Err(e) => Err(e),
        Ok((p, _)) => Ok(p),
    }
}

/// A parsed program ends just after an `EOF` token.
pub proof fn lemma_program_from_ends_at_eof(toks: Seq<Token>, pos: int, lab: int)
    ensures
        spec_program_from(toks, pos, lab) matches Ok((_, q)) ==> 0 < q <= toks.len() && toks[q - 1]
            == Token::EOF,
    decreases toks.len() - pos,
{
    if !out_of_range(toks, pos) && tok(toks, pos) != Token::EOF {
        if let Ok((_, p1, l1)) = spec_top_level(toks, pos, lab) {
            if moved(toks, p1, pos) {
                lemma_program_from_ends_at_eof(toks, p1, l1);
            }
        }
    }
}

// ---------------------------------------------------------------------------
// Executable parser.
// ---------------------------------------------------------------------------

/// How an executable parse step relates to its model: the same value and end
/// position, or an error of the same kind.
pub open spec fn expr_outcome<T>(r: Result<T, CompilerError>, m: ExprRes<T>, p: int) -> bool {
    match m {
        Ok((v, q)) => r matches Ok(x) && x == v && p == q,
        Err(k) => r matches Err(e) && e.kind() == k,
    }
}

pub open spec fn stmt_outcome<T>(r: Result<T, CompilerError>, m: StmtRes<T>, p: int, l: int) -> bool {
    match m {
        Ok((v, q, lq)) => r matches Ok(x) && x == v && p == q && l == lq,
        Err(k) => r matches Err(e) && e.kind() == k,
    }
}

pub open spec fn plain_outcome<T>(r: Result<T, CompilerError>, m: Result<T, ErrorKind>) -> bool {
    match m {
        Ok(v) => r matches Ok(x) && x == v,
        Err(k) => r matches Err(e) && e.kind() == k,
    }
}

fn syntax_error(msg: &str) -> (e: CompilerError)
    ensures
        e.kind() == ErrorKind::Syntax,
{
    CompilerError::with_message(ErrorKind::Syntax, msg)
}

fn semantic_error(msg: &str) -> (e: CompilerError)
    ensures
        e.kind() == ErrorKind::Semantic,
{
    CompilerError::with_message(ErrorKind::Semantic, msg)
}

fn get_precedence(op: Symbol) -> (p: i32)
    ensures
        p == spec_precedence(op),
{
    match op {
        Symbol::Ambiguous(_) => 45,
        Symbol::Binary(op) => match op {
            BinaryOperator::Multiply | BinaryOperator::Divide | BinaryOperator::Modulo => 50,
            BinaryOperator::BitwiseShiftLeft | BinaryOperator::BitwiseShiftRight => 45,
            BinaryOperator::Addition | BinaryOperator::Subtraction => 45,
            BinaryOperator::LessThan
            | BinaryOperator::LessThanOrEquals
            | BinaryOperator::GreaterThan
            | BinaryOperator::GreaterThanOrEquals => 35,
            BinaryOperator::Equals | BinaryOperator::NotEquals => 30,
            BinaryOperator::BitwiseAnd => 25,
            BinaryOperator::BitwiseXor => 20,
            BinaryOperator::BitwiseOr => 15,
            BinaryOperator::LogicalAnd => 10,
            BinaryOperator::LogicalOr => 5,
            BinaryOperator::Ternary => 3,
            BinaryOperator::Assign => 1,
        },
        _ => -1,
    }
}

fn compound_op(s: Symbol) -> (op: BinaryOperator)
    ensures
        op == compound_operator(s),
{
    match s {
        Symbol::Binary(op) => op,
        Symbol::Ambiguous(UnaryOrBinaryOp::Addition) => BinaryOperator::Addition,
        _ => BinaryOperator::Subtraction,
    }
}

fn contains_type(v: &Vec<Type>, t: Type) -> (b: bool)
    ensures
        b == v@.contains(t),
{
    let mut i: usize = 0;
    while i < v.len()
        invariant
            0 <= i <= v.len(),
            forall|k: int| 0 <= k < i ==> v@[k] != t,
        decreases v.len() - i,
    {
        if v[i] == t {
            return true;
        }
        i += 1;
    }
    false
}

/// The type that a list of type specifiers denotes.
fn parse_type_specifier(types: &Vec<Type>) -> (r: Result<Type, CompilerError>)
    ensures
        plain_outcome(r, spec_parse_type_specifier(types@)),
{
    let n = types.len();
    if n == 0 {
        return Err(syntax_error("Invalid type specifier"));
    }
    let mut i: usize = 0;
    while i < n
        invariant
            n == types.len(),
            0 <= i <= n,
            forall|a: int, b: int| 0 <= a < b < i ==> types@[a] != types@[b],
        decreases n - i,
    {
        let mut j: usize = 0;
        while j < i
            invariant
                n == types.len(),
                0 <= j <= i < n,
                forall|a: int| 0 <= a < j ==> types@[a] != types@[i as int],
            decreases i - j,
        {
            if types[j] == types[i] {
                assert(has_dup(types@));
                return Err(syntax_error("Invalid type specifier"));
            }
            j += 1;
        }
        i += 1;
    }
    assert(!has_dup(types@));
    let signed = contains_type(types, Type::Signed);
    let unsigned = contains_type(types, Type::Unsigned);
    let long = contains_type(types, Type::Long);
    if signed && unsigned {
        Err(syntax_error("Invalid type specifier"))
    } else if unsigned && long {
        Ok(Type::ULong)
    } else if unsigned {
        Ok(Type::UInt)
    } else if long {
        Ok(Type::Long)
    } else {
        Ok(Type::Int)
    }
}

/// The type and storage class that a list of specifiers denotes.
fn parse_type_and_storage_class(specifiers: &Vec<Keyword>) -> (r: Result<
    (Type, Option<StorageClass>),
    CompilerError,
>)
    ensures
        plain_outcome(r, spec_parse_type_and_storage_class(specifiers@)),
{
    let mut types: Vec<Type> = Vec::new();
    let mut classes: Vec<StorageClass> = Vec::new();
    let mut i: usize = 0;
    while i < specifiers.len()
        invariant
            0 <= i <= specifiers.len(),
            types@ == types_of(specifiers@.take(i as int)),
            classes@ == classes_of(specifiers@.take(i as int)),
        decreases specifiers.len() - i,
    {
        proof {
            assert(specifiers@.take(i + 1).drop_last() =~= specifiers@.take(i as int));
        }
        match specifiers[i] {
            Keyword::Type(t) => types.push(t),
            Keyword::StorageClass(c) => classes.push(c),
            _ => {},
        }
        i += 1;
    }
    proof {
        assert(specifiers@.take(i as int) =~= specifiers@);
    }
    let t = parse_type_specifier(&types)?;
    if classes.len() > 1 {
        Err(syntax_error("Invalid storage class"))
    } else if classes.len() == 1 {
        Ok((t, Some(classes[0])))
    } else {
        Ok((t, None))
    }
}

/// A recursive-descent parser over the tokens of one translation unit.
pub struct Parser {
    loop_label_counter: u64,
    tokens: Vec<Token>,
    pos: usize,
}

impl Parser {
    pub closed spec fn wf(&self) -> bool {
        self.pos <= self.tokens.len()
    }

    pub closed spec fn spec_tokens(&self) -> Seq<Token> {
        self.tokens@
    }

    pub closed spec fn spec_pos(&self) -> int {
        self.pos as int
    }

    pub closed spec fn spec_labels(&self) -> int {
        self.loop_label_counter as int
    }

    /// Same tokens and label counter, and still well formed.
    closed spec fn keeps(&self, before: &Parser) -> bool {
        self.tokens == before.tokens && self.loop_label_counter == before.loop_label_counter
            && self.wf()
    }

    closed spec fn keeps_tokens(&self, before: &Parser) -> bool {
        self.tokens == before.tokens && self.wf()
    }

    /// A parser at the start of the tokens, with no loop label handed out yet.
    pub fn new(tokens: Vec<Token>) -> (p: Parser)
        ensures
            p.wf(),
            p.spec_tokens() == tokens@,
            p.spec_pos() == 0,
            p.spec_labels() == 0,
    {
        Parser { loop_label_counter: 0, tokens, pos: 0 }
    }

    fn peek_token(&self) -> (t: Token)
        ensures
            t == tok(self.tokens@, self.pos as int),
    {
        if self.pos < self.tokens.len() {
            self.tokens[self.pos]
        } else {
            Token::EOF
        }
    }

    /// Whether the next token is present and equals `t`.
    fn next_is(&self, t: Token) -> (b: bool)
        ensures
            b == at(self.tokens@, self.pos as int, t),
    {
        self.pos < self.tokens.len() && self.tokens[self.pos] == t
    }

    fn bump(&mut self)
        requires
            old(self).wf(),
        ensures
            final(self).keeps(old(self)),
            final(self).pos == adv(old(self).tokens@, old(self).pos as int),
    {
        if self.pos < self.tokens.len() {
            self.pos = self.pos + 1;
        }
    }

    fn expect(&mut self, t: Token) -> (r: Result<(), CompilerError>)
        requires
            old(self).wf(),
        ensures
            final(self).keeps(old(self)),
            at(old(self).tokens@, old(self).pos as int, t) ==> r is Ok && final(self).pos
                == old(self).pos + 1,
            !at(old(self).tokens@, old(self).pos as int, t) ==> (r matches Err(e) && e.kind()
                == ErrorKind::Syntax),
    {
        if self.next_is(t) {
            self.pos = self.pos + 1;
            Ok(())
        } else {
            Err(syntax_error("Unexpected token"))
        }
    }

    /// Whether the parse moved strictly forward from `start`.
    fn moved_from(&self, start: usize) -> (b: bool)
        ensures
            b == moved(self.tokens@, self.pos as int, start as int),
    {
        start < self.pos && self.pos <= self.tokens.len()
    }

    fn specifier_here(&self, storage: bool) -> (b: bool)
        ensures
            b == (0 <= self.pos < self.tokens.len() && (if storage {
                is_specifier_keyword(self.tokens@[self.pos as int])
            } else {
                is_type_keyword(self.tokens@[self.pos as int])
            })),
    {
        if self.pos < self.tokens.len() {
            match self.tokens[self.pos] {
                Token::Keyword(Keyword::Type(_)) => true,
                Token::Keyword(Keyword::StorageClass(_)) => storage,
                _ => false,
            }
        } else {
            false
        }
    }

    fn collect_specifiers(&mut self, storage: bool) -> (v: Vec<Keyword>)
        requires
            old(self).wf(),
        ensures
            final(self).keeps(old(self)),
            (v@, final(self).pos as int) == collect_specifiers(
                old(self).tokens@,
                old(self).pos as int,
                storage,
            ),
    {
        let ghost toks = self.tokens@;
        let ghost start = self.pos as int;
        let mut v: Vec<Keyword> = Vec::new();
        while self.specifier_here(storage)
            invariant
                self.tokens@ == toks,
                self.keeps(old(self)),
                collect_specifiers(toks, start, storage) == (
                    v@ + collect_specifiers(toks, self.pos as int, storage).0,
                    collect_specifiers(toks, self.pos as int, storage).1,
                ),
            decreases self.tokens.len() - self.pos,
        {
            let k = match self.tokens[self.pos] {
                Token::Keyword(k) => k,
                _ => Keyword::Return,
            };
            proof {
                let (rest, p) = collect_specifiers(toks, self.pos + 1, storage);
                assert(v@.push(k) + rest =~= v@ + (seq![k] + rest));
            }
            v.push(k);
            self.pos = self.pos + 1;
        }
        proof {
            assert(v@ + Seq::<Keyword>::empty() =~= v@);
        }
        v
    }

    fn parse_increment_decrement(&self, e: ASTNode, op: UnaryOperator, is_prefix: bool) -> (r:
        Result<ASTNode, CompilerError>)
        ensures
            expr_outcome(r, spec_incdec(e, op, is_prefix, self.pos as int), self.pos as int),
    {
        if is_lvalue_node(&e.kind) {
            if is_prefix {
                Ok(ASTNode::new(Expression::Prefix(op, Box::new(e))))
            } else {
                Ok(ASTNode::new(Expression::Postfix(op, Box::new(e))))
            }
        } else {
            Err(semantic_error("Expected lvalue node"))
        }
    }

    fn parse_primary(&mut self) -> (r: Result<ASTNode, CompilerError>)
        requires
            old(self).wf(),
        ensures
            final(self).keeps(old(self)),
            expr_outcome(r, spec_primary(old(self).tokens@, old(self).pos as int), final(self).pos as int),
        decreases old(self).tokens@.len() - old(self).pos, 1nat,
    {
        let start = self.pos;
        match self.peek_token() {
            Token::NumberLiteral(v, suffix) => {
                self.pos = self.pos + 1;
                Ok(ASTNode::new(Expression::Constant(const_of_literal(v, suffix))))
            },
            Token::Symbol(s) => {
                if s != Symbol::OpenParenthesis {
                    return Err(syntax_error("Expected ("));
                }
                self.pos = self.pos + 1;
                match self.peek_token() {
                    Token::Keyword(Keyword::Type(_)) => {
                        let specs = self.collect_specifiers(false);
                        if !self.moved_from(start) || !self.next_is(
                            Token::Symbol(Symbol::CloseParenthesis),
                        ) {
                            return Err(syntax_error("Expected )"));
                        }
                        self.pos = self.pos + 1;
                        let mut types: Vec<Type> = Vec::new();
                        let mut i: usize = 0;
                        while i < specs.len()
                            invariant
                                0 <= i <= specs.len(),
                                types@ == types_of(specs@.take(i as int)),
                            decreases specs.len() - i,
                        {
                            proof {
                                assert(specs@.take(i + 1).drop_last() =~= specs@.take(i as int));
                            }
                            match specs[i] {
                                Keyword::Type(t) => types.push(t),
                                _ => {},
                            }
                            i += 1;
                        }
                        proof {
                            assert(specs@.take(i as int) =~= specs@);
                        }
                        let t = parse_type_specifier(&types)?;
                        let e = self.parse_unary_or_primary()?;
                        Ok(ASTNode::new(Expression::Cast(t, Box::new(e))))
                    },
                    _ => {
                        let e = self.parse_binary_op(0)?;
                        self.expect(Token::Symbol(Symbol::CloseParenthesis))?;
                        Ok(e)
                    },
                }
            },
            Token::Name(id) => {
                self.pos = self.pos + 1;
                if self.peek_token() == Token::Symbol(Symbol::OpenParenthesis) {
                    self.pos = self.pos + 1;
                    let args = self.parse_arguments()?;
                    Ok(ASTNode::new(Expression::FunctionCall(Name::Source(id), Box::new(args))))
                } else {
                    Ok(ASTNode::new(Expression::Variable(Name::Source(id))))
                }
            },
            _ => Err(syntax_error("Unexpected token")),
        }
    }

    fn parse_unary_or_primary(&mut self) -> (r: Result<ASTNode, CompilerError>)
        requires
            old(self).wf(),
        ensures
            final(self).keeps(old(self)),
            expr_outcome(
                r,
                spec_unary_or_primary(old(self).tokens@, old(self).pos as int),
                final(self).pos as int,
            ),
        decreases old(self).tokens@.len() - old(self).pos, 2nat,
    {
        match self.peek_token() {
            Token::Symbol(Symbol::Unary(op)) => {
                self.pos = self.pos + 1;
                let e = self.parse_unary_or_primary()?;
                if op == UnaryOperator::Increment || op == UnaryOperator::Decrement {
                    self.parse_increment_decrement(e, op, true)
                } else {
                    Ok(ASTNode::new(Expression::Unary(op, Box::new(e))))
                }
            },
            Token::Symbol(Symbol::Ambiguous(a)) => {
                self.pos = self.pos + 1;
                let e = self.parse_unary_or_primary()?;
                let op = if a == UnaryOrBinaryOp::Addition {
                    UnaryOperator::UnaryAdd
                } else {
                    UnaryOperator::Negate
                };
                Ok(ASTNode::new(Expression::Unary(op, Box::new(e))))
            },
            _ => {
                let e = self.parse_primary()?;
                match self.peek_token() {
                    Token::Symbol(Symbol::Unary(op)) => {
                        if op == UnaryOperator::Increment || op == UnaryOperator::Decrement {
                            self.pos = self.pos + 1;
                            self.parse_increment_decrement(e, op, false)
                        } else {
                            Ok(e)
                        }
                    },
                    _ => Ok(e),
                }
            },
        }
    }

    fn parse_binary_op(&mut self, min: i32) -> (r: Result<ASTNode, CompilerError>)
        requires
            old(self).wf(),
        ensures
            final(self).keeps(old(self)),
            expr_outcome(r, spec_binop(old(self).tokens@, old(self).pos as int, min), final(self).pos as int),
        decreases old(self).tokens@.len() - old(self).pos, 3nat,
    {
        let start = self.pos;
        let left = self.parse_unary_or_primary()?;
        if !self.moved_from(start) {
            return Err(syntax_error("Unexpected token"));
        }
        self.parse_binary_op_loop(left, min)
    }

    fn parse_binary_op_loop(&mut self, left: ASTNode, min: i32) -> (r: Result<ASTNode, CompilerError>)
        requires
            old(self).wf(),
        ensures
            final(self).keeps(old(self)),
            expr_outcome(
                r,
                spec_binop_loop(old(self).tokens@, old(self).pos as int, left, min),
                final(self).pos as int,
            ),
        decreases old(self).tokens@.len() - old(self).pos, 4nat,
    {
        let start = self.pos;
        match self.peek_token() {
            Token::Symbol(s) => {
                let is_op = match s {
                    Symbol::Binary(_) | Symbol::Ambiguous(_) => true,
                    _ => false,
                };
                if !is_op || get_precedence(s) < min {
                    return Ok(left);
                }
                self.pos = self.pos + 1;
                if self.peek_token() == Token::Symbol(Symbol::Binary(BinaryOperator::Assign)) {
                    if !is_lvalue_node(&left.kind) {
                        return Err(semantic_error("Expected lvalue"));
                    }
                    self.pos = self.pos + 1;
                    let right = self.parse_binary_op(1)?;
                    let v = match extract_base_variable(&left.kind) {
                        Some(v) => v,
                        None => {
                            return Err(semantic_error("Expected lvalue"));
                        },
                    };
                    let bin = ASTNode::new(
                        Expression::Binary {
                            op: compound_op(s),
                            left: Box::new(ASTNode::new(Expression::Variable(v))),
                            right: Box::new(right),
                        },
                    );
                    let next = ASTNode::new(
                        Expression::Assignment { left: Box::new(left), right: Box::new(bin) },
                    );
                    if !self.moved_from(start) {
                        return Err(syntax_error("Unexpected token"));
                    }
                    self.parse_binary_op_loop(next, min)
                } else if s == Symbol::Binary(BinaryOperator::Assign) {
                    if !is_lvalue_node(&left.kind) {
                        return Err(semantic_error("Expected lvalue node"));
                    }
                    let right = self.parse_binary_op(1)?;
                    let next = ASTNode::new(
                        Expression::Assignment { left: Box::new(left), right: Box::new(right) },
                    );
                    if !self.moved_from(start) {
                        return Err(syntax_error("Unexpected token"));
                    }
                    self.parse_binary_op_loop(next, min)
                } else if s == Symbol::Binary(BinaryOperator::Ternary) {
                    let middle = self.parse_condition()?;
                    if !self.moved_from(start) {
                        return Err(syntax_error("Unexpected token"));
                    }
                    let right = self.parse_binary_op(3)?;
                    let next = ASTNode::new(
                        Expression::Condition {
                            condition: Box::new(left),
                            if_true: Box::new(middle),
                            if_false: Box::new(right),
                        },
                    );
                    if !self.moved_from(start) {
                        return Err(syntax_error("Unexpected token"));
                    }
                    self.parse_binary_op_loop(next, min)
                } else {
                    let right = self.parse_binary_op(get_precedence(s) + 1)?;
                    let next = ASTNode::new(
                        Expression::Binary {
                            op: compound_op(s),
                            left: Box::new(left),
                            right: Box::new(right),
                        },
                    );
                    if !self.moved_from(start) {
                        return Err(syntax_error("Unexpected token"));
                    }
                    self.parse_binary_op_loop(next, min)
                }
            },
            _ => Err(syntax_error("Unexpected token")),
        }
    }

    /// The middle term of a conditional expression, through the colon.
    fn parse_condition(&mut self) -> (r: Result<ASTNode, CompilerError>)
        requires
            old(self).wf(),
        ensures
            final(self).keeps(old(self)),
            expr_outcome(r, spec_condition(old(self).tokens@, old(self).pos as int), final(self).pos as int),
        decreases old(self).tokens@.len() - old(self).pos, 4nat,
    {
        let middle = self.parse_binary_op(0)?;
        self.expect(Token::Symbol(Symbol::Colon))?;
        Ok(middle)
    }

    fn parse_arguments(&mut self) -> (r: Result<Arguments, CompilerError>)
        requires
            old(self).wf(),
        ensures
            final(self).keeps(old(self)),
            expr_outcome(r, spec_arguments(old(self).tokens@, old(self).pos as int), final(self).pos as int),
        decreases old(self).tokens@.len() - old(self).pos, 4nat,
    {
        if self.next_is(Token::Symbol(Symbol::CloseParenthesis)) {
            self.pos = self.pos + 1;
            return Ok(Arguments::Nil);
        }
        let start = self.pos;
        let e = self.parse_binary_op(0)?;
        if !self.moved_from(start) {
            return Err(syntax_error("Unexpected token"));
        }
        let rest = self.parse_arguments_rest()?;
        Ok(Arguments::Cons(Box::new(e), Box::new(rest)))
    }

    fn parse_arguments_rest(&mut self) -> (r: Result<Arguments, CompilerError>)
        requires
            old(self).wf(),
        ensures
            final(self).keeps(old(self)),
            expr_outcome(
                r,
                spec_arguments_rest(old(self).tokens@, old(self).pos as int),
                final(self).pos as int,
            ),
        decreases old(self).tokens@.len() - old(self).pos, 4nat,
    {
        if self.next_is(Token::Symbol(Symbol::CloseParenthesis)) {
            self.pos = self.pos + 1;
            return Ok(Arguments::Nil);
        }
        let start = self.pos;
        self.expect(Token::Symbol(Symbol::Comma))?;
        let e = self.parse_binary_op(0)?;
        if !self.moved_from(start) {
            return Err(syntax_error("Unexpected token"));
        }
        let rest = self.parse_arguments_rest()?;
        Ok(Arguments::Cons(Box::new(e), Box::new(rest)))
    }
}

impl Parser {
    fn end_line(&mut self) -> (r: Result<(), CompilerError>)
        requires
            old(self).wf(),
        ensures
            final(self).keeps(old(self)),
            at(old(self).tokens@, old(self).pos as int, sym_tok(Symbol::Semicolon)) ==> r is Ok
                && final(self).pos == old(self).pos + 1,
            !at(old(self).tokens@, old(self).pos as int, sym_tok(Symbol::Semicolon)) ==> (
            r matches Err(e) && e.kind() == ErrorKind::Syntax && final(self).pos == old(self).pos),
    {
        if self.next_is(Token::Symbol(Symbol::Semicolon)) {
            self.pos = self.pos + 1;
            Ok(())
        } else {
            Err(syntax_error("Expected semicolon"))
        }
    }

    fn parse_declaration(&mut self, t: Type, sc: Option<StorageClass>, name: Option<Name>) -> (r:
        Result<VariableDeclaration, CompilerError>)
        requires
            old(self).wf(),
        ensures
            final(self).keeps(old(self)),
            expr_outcome(
                r,
                spec_declaration(old(self).tokens@, old(self).pos as int, t, sc, name),
                final(self).pos as int,
            ),
    {
        let n = match name {
            Some(n) => n,
            None => {
                let current = self.peek_token();
                self.bump();
                match current {
                    Token::Name(id) => Name::Source(id),
                    _ => {
                        return Err(syntax_error("Expected identifier"));
                    },
                }
            },
        };
        if self.next_is(Token::Symbol(Symbol::Binary(BinaryOperator::Assign))) {
            self.pos = self.pos + 1;
            let e = self.parse_binary_op(0)?;
            Ok(VariableDeclaration { name: n, init: Some(Box::new(e)), storage_class: sc, var_type: t })
        } else {
            Ok(VariableDeclaration { name: n, init: None, storage_class: sc, var_type: t })
        }
    }

    fn parse_for_init(&mut self) -> (r: Result<ForInit, CompilerError>)
        requires
            old(self).wf(),
        ensures
            final(self).keeps(old(self)),
            expr_outcome(r, spec_for_init(old(self).tokens@, old(self).pos as int), final(self).pos as int),
    {
        match self.peek_token() {
            Token::Keyword(Keyword::Type(_)) => {
                let specs = self.collect_specifiers(true);
                let (t, sc) = parse_type_and_storage_class(&specs)?;
                let d = self.parse_declaration(t, sc, None)?;
                Ok(ForInit::InitDecl(d))
            },
            Token::Symbol(Symbol::Semicolon) => Ok(ForInit::InitExp(None)),
            _ => {
                let e = self.parse_binary_op(0)?;
                Ok(ForInit::InitExp(Some(Box::new(e))))
            },
        }
    }

    fn parse_optional_expression(&mut self, stop: Symbol) -> (r: Result<
        Option<Box<ASTNode>>,
        CompilerError,
    >)
        requires
            old(self).wf(),
        ensures
            final(self).keeps(old(self)),
            expr_outcome(
                r,
                spec_optional_expression(old(self).tokens@, old(self).pos as int, stop),
                final(self).pos as int,
            ),
    {
        if self.peek_token() == Token::Symbol(stop) {
            Ok(None)
        } else {
            let e = self.parse_binary_op(0)?;
            Ok(Some(Box::new(e)))
        }
    }

    /// Hands out the next loop label.
    fn next_label(&mut self) -> (r: Result<u64, CompilerError>)
        requires
            old(self).wf(),
        ensures
            final(self).tokens == old(self).tokens,
            final(self).pos == old(self).pos,
            old(self).loop_label_counter < u64::MAX ==> r == Ok::<u64, CompilerError>(
                old(self).loop_label_counter,
            ) && final(self).loop_label_counter == old(self).loop_label_counter + 1,
            old(self).loop_label_counter >= u64::MAX ==> (r matches Err(e) && e.kind()
                == ErrorKind::Syntax),
    {
        if self.loop_label_counter == u64::MAX {
            return Err(syntax_error("Too many loops"));
        }
        let label = self.loop_label_counter;
        self.loop_label_counter = self.loop_label_counter + 1;
        Ok(label)
    }

    #[verifier::rlimit(80)]
    fn parse_statement(&mut self) -> (r: Result<Statement, CompilerError>)
        requires
            old(self).wf(),
        ensures
            final(self).keeps_tokens(old(self)),
            stmt_outcome(
                r,
                spec_statement(
                    old(self).tokens@,
                    old(self).pos as int,
                    old(self).loop_label_counter as int,
                ),
                final(self).pos as int,
                final(self).loop_label_counter as int,
            ),
        decreases old(self).tokens@.len() - old(self).pos, 2nat,
    {
        let start = self.pos;
        match self.peek_token() {
            Token::Keyword(k) => {
                self.pos = self.pos + 1;
                match k {
                    Keyword::Return => {
                        let e = self.parse_binary_op(0)?;
                        self.end_line()?;
                        Ok(Statement::Return(Box::new(e)))
                    },
                    Keyword::If => {
                        self.expect(Token::Symbol(Symbol::OpenParenthesis))?;
                        let c = self.parse_binary_op(0)?;
                        self.expect(Token::Symbol(Symbol::CloseParenthesis))?;
                        if !self.moved_from(start) {
                            return Err(syntax_error("Unexpected token"));
                        }
                        let body = self.parse_statement()?;
                        if self.peek_token() == Token::Keyword(Keyword::Else) {
                            self.pos = self.pos + 1;
                            if !self.moved_from(start) {
                                return Err(syntax_error("Unexpected token"));
                            }
                            let else_body = self.parse_statement()?;
                            Ok(
                                Statement::If {
                                    condition: Box::new(c),
                                    if_true: Box::new(body),
                                    if_false: Some(Box::new(else_body)),
                                },
                            )
                        } else {
                            Ok(
                                Statement::If {
                                    condition: Box::new(c),
                                    if_true: Box::new(body),
                                    if_false: None,
                                },
                            )
                        }
                    },
                    Keyword::Else => Err(syntax_error("Unexpected else")),
                    Keyword::While => {
                        let label = self.next_label()?;
                        self.expect(Token::Symbol(Symbol::OpenParenthesis))?;
                        let c = self.parse_binary_op(0)?;
                        self.expect(Token::Symbol(Symbol::CloseParenthesis))?;
                        if !self.moved_from(start) {
                            return Err(syntax_error("Unexpected token"));
                        }
                        let body = self.parse_statement()?;
                        Ok(
                            Statement::While {
                                condition: Box::new(c),
                                body: Box::new(body),
                                label,
                                is_do_while: false,
                            },
                        )
                    },
                    Keyword::Break => Ok(Statement::Break(0)),
                    Keyword::Continue => Ok(Statement::Continue { label: 0, is_for: false }),
                    Keyword::Do => {
                        let label = self.next_label()?;
                        let body = self.parse_statement()?;
                        self.expect(Token::Keyword(Keyword::While))?;
                        self.expect(Token::Symbol(Symbol::OpenParenthesis))?;
                        let c = self.parse_binary_op(0)?;
                        self.expect(Token::Symbol(Symbol::CloseParenthesis))?;
                        self.end_line()?;
                        Ok(
                            Statement::While {
                                condition: Box::new(c),
                                body: Box::new(body),
                                label,
                                is_do_while: true,
                            },
                        )
                    },
                    Keyword::For => {
                        self.expect(Token::Symbol(Symbol::OpenParenthesis))?;
                        let label = self.next_label()?;
                        let init = self.parse_for_init()?;
                        self.end_line()?;
                        let c = self.parse_optional_expression(Symbol::Semicolon)?;
                        self.end_line()?;
                        let inc = self.parse_optional_expression(Symbol::CloseParenthesis)?;
                        self.expect(Token::Symbol(Symbol::CloseParenthesis))?;
                        if !self.moved_from(start) {
                            return Err(syntax_error("Unexpected token"));
                        }
                        let body = self.parse_statement()?;
                        Ok(
                            Statement::For {
                                init: Box::new(init),
                                condition: c,
                                increment: inc,
                                body: Box::new(body),
                                label,
                            },
                        )
                    },
                    _ => Err(syntax_error("Unexpected keyword")),
                }
            },
            Token::Symbol(Symbol::OpenBrace) => {
                self.pos = self.pos + 1;
                let b = self.parse_block_items()?;
                self.expect(Token::Symbol(Symbol::CloseBrace))?;
                Ok(Statement::Compound(Box::new(b)))
            },
            Token::Symbol(Symbol::Semicolon) => {
                self.pos = self.pos + 1;
                Ok(Statement::Null)
            },
            _ => {
                let e = self.parse_binary_op(0)?;
                self.end_line()?;
                Ok(Statement::Expression(Box::new(e)))
            },
        }
    }

    fn parse_block_item(&mut self) -> (r: Result<BlockItem, CompilerError>)
        requires
            old(self).wf(),
        ensures
            final(self).keeps_tokens(old(self)),
            stmt_outcome(
                r,
                spec_block_item(
                    old(self).tokens@,
                    old(self).pos as int,
                    old(self).loop_label_counter as int,
                ),
                final(self).pos as int,
                final(self).loop_label_counter as int,
            ),
        decreases old(self).tokens@.len() - old(self).pos, 3nat,
    {
        if self.specifier_here(true) {
            let specs = self.collect_specifiers(true);
            let (t, sc) = parse_type_and_storage_class(&specs)?;
            let d = self.parse_declaration(t, sc, None)?;
            if self.peek_token() == Token::Symbol(Symbol::OpenParenthesis) {
                return Err(semantic_error("Inner function declaration"));
            }
            self.end_line()?;
            Ok(BlockItem::D(Declaration::VariableDeclaration(d)))
        } else {
            let st = self.parse_statement()?;
            Ok(BlockItem::S(st))
        }
    }

    fn parse_block_items(&mut self) -> (r: Result<Block, CompilerError>)
        requires
            old(self).wf(),
        ensures
            final(self).keeps_tokens(old(self)),
            stmt_outcome(
                r,
                spec_block_items(
                    old(self).tokens@,
                    old(self).pos as int,
                    old(self).loop_label_counter as int,
                ),
                final(self).pos as int,
                final(self).loop_label_counter as int,
            ),
        decreases old(self).tokens@.len() - old(self).pos, 4nat,
    {
        let t = self.peek_token();
        if t == Token::Symbol(Symbol::CloseBrace) {
            return Ok(Block::Nil);
        }
        if t == Token::EOF {
            return Err(syntax_error("Unexpected EOF"));
        }
        let start = self.pos;
        let item = self.parse_block_item()?;
        if !self.moved_from(start) {
            return Err(syntax_error("Unexpected token"));
        }
        let rest = self.parse_block_items()?;
        Ok(Block::Cons(Box::new(item), Box::new(rest)))
    }

    fn parse_params_rest(&mut self) -> (r: Result<(NameList, TypeList), CompilerError>)
        requires
            old(self).wf(),
        ensures
            final(self).keeps(old(self)),
            match spec_params_rest(old(self).tokens@, old(self).pos as int) {
                Ok((ns, ts, p)) => r matches Ok(x) && x == (ns, ts) && final(self).pos == p,
                Err(k) => r matches Err(e) && e.kind() == k,
            },
        decreases old(self).tokens@.len() - old(self).pos,
    {
        let start = self.pos;
        let specs = self.collect_specifiers(false);
        if specs.len() == 0 {
            return Err(syntax_error("Expected type specifier"));
        }
        let (t, _) = parse_type_and_storage_class(&specs)?;
        match self.peek_token() {
            Token::Name(id) => {
                self.pos = self.pos + 1;
                if self.next_is(Token::Symbol(Symbol::CloseParenthesis)) {
                    self.pos = self.pos + 1;
                    Ok(
                        (
                            NameList::Cons(Name::Source(id), Box::new(NameList::Nil)),
                            TypeList::Cons(t, Box::new(TypeList::Nil)),
                        ),
                    )
                } else {
                    self.expect(Token::Symbol(Symbol::Comma))?;
                    if !self.moved_from(start) {
                        return Err(syntax_error("Unexpected token"));
                    }
                    let (ns, ts) = self.parse_params_rest()?;
                    Ok(
                        (
                            NameList::Cons(Name::Source(id), Box::new(ns)),
                            TypeList::Cons(t, Box::new(ts)),
                        ),
                    )
                }
            },
            _ => Err(syntax_error("Expected parameter name")),
        }
    }

    fn parse_params(&mut self) -> (r: Result<(NameList, TypeList), CompilerError>)
        requires
            old(self).wf(),
        ensures
            final(self).keeps(old(self)),
            match spec_params(old(self).tokens@, old(self).pos as int) {
                Ok((ns, ts, p)) => r matches Ok(x) && x == (ns, ts) && final(self).pos == p,
                Err(k) => r matches Err(e) && e.kind() == k,
            },
    {
        self.expect(Token::Symbol(Symbol::OpenParenthesis))?;
        if self.next_is(Token::Symbol(Symbol::CloseParenthesis)) {
            self.pos = self.pos + 1;
            return Ok((NameList::Nil, TypeList::Nil));
        }
        self.parse_params_rest()
    }

    fn parse_top_level(&mut self) -> (r: Result<Declaration, CompilerError>)
        requires
            old(self).wf(),
        ensures
            final(self).keeps_tokens(old(self)),
            stmt_outcome(
                r,
                spec_top_level(
                    old(self).tokens@,
                    old(self).pos as int,
                    old(self).loop_label_counter as int,
                ),
                final(self).pos as int,
                final(self).loop_label_counter as int,
            ),
    {
        let specs = self.collect_specifiers(true);
        let (t, sc) = parse_type_and_storage_class(&specs)?;
        let id = match self.peek_token() {
            Token::Name(id) => id,
            _ => {
                return Err(syntax_error("Expected identifier"));
            },
        };
        self.pos = self.pos + 1;
        let next = self.peek_token();
        if next == Token::Symbol(Symbol::OpenParenthesis) {
            let (names, types) = self.parse_params()?;
            let ft = FuncType { params: types, ret: t };
            if self.next_is(Token::Symbol(Symbol::Semicolon)) {
                self.pos = self.pos + 1;
                return Ok(
                    Declaration::FunctionDeclaration(
                        FunctionDeclaration {
                            name: Name::Source(id),
                            params: names,
                            body: None,
                            storage_class: sc,
                            func_type: ft,
                        },
                    ),
                );
            }
            self.expect(Token::Symbol(Symbol::OpenBrace))?;
            let b = self.parse_block_items()?;
            self.expect(Token::Symbol(Symbol::CloseBrace))?;
            Ok(
                Declaration::FunctionDeclaration(
                    FunctionDeclaration {
                        name: Name::Source(id),
                        params: names,
                        body: Some(Box::new(b)),
                        storage_class: sc,
                        func_type: ft,
                    },
                ),
            )
        } else if next == Token::Symbol(Symbol::Binary(BinaryOperator::Assign)) || next
            == Token::Symbol(Symbol::Semicolon) {
            let d = self.parse_declaration(t, sc, Some(Name::Source(id)))?;
            self.bump();
            Ok(Declaration::VariableDeclaration(d))
        } else {
            Err(syntax_error("Unexpected token"))
        }
    }

    fn parse_program_from(&mut self) -> (r: Result<Program, CompilerError>)
        requires
            old(self).wf(),
        ensures
            final(self).keeps_tokens(old(self)),
            expr_outcome(
                r,
                spec_program_from(
                    old(self).tokens@,
                    old(self).pos as int,
                    old(self).loop_label_counter as int,
                ),
                final(self).pos as int,
            ),
        decreases old(self).tokens@.len() - old(self).pos,
    {
        if self.peek_token() == Token::EOF {
            if self.pos < self.tokens.len() {
                self.pos = self.pos + 1;
                return Ok(Program::Nil);
            }
            return Err(syntax_error("Unexpected end of tokens"));
        }
        let start = self.pos;
        let d = self.parse_top_level()?;
        if !self.moved_from(start) {
            return Err(syntax_error("Unexpected token"));
        }
        let rest = self.parse_program_from()?;
        Ok(Program::Cons(Box::new(d), Box::new(rest)))
    }

    /// Parses the whole translation unit: top-level declarations up to `EOF`.
    pub fn parse_program(&mut self) -> (r: Result<Program, CompilerError>)
        requires
            old(self).wf(),
            old(self).spec_pos() == 0,
            old(self).spec_labels() == 0,
        ensures
            plain_outcome(r, spec_parse_program(old(self).spec_tokens())),
            final(self).spec_tokens() == old(self).spec_tokens(),
            r is Ok ==> 0 < final(self).spec_pos() <= final(self).spec_tokens().len()
                && final(self).spec_tokens()[final(self).spec_pos() - 1] == Token::EOF,
            r is Ok && (forall|i: int|
                0 <= i < old(self).spec_tokens().len() - 1 ==> old(self).spec_tokens()[i] != Token::EOF)
                ==> final(self).spec_pos() == old(self).spec_tokens().len(),
    {
        proof {
            lemma_program_from_ends_at_eof(self.tokens@, 0, 0);
        }
        self.parse_program_from()
    }
}

} // verus!

verus! {

// ---------------------------------------------------------------------------
// What the parser guarantees of expressions.
// ---------------------------------------------------------------------------

/// Every assignment, increment and decrement in the expression applies to
/// an lvalue (a variable, or a prefix increment or decrement of one).
pub open spec fn lvalues_ok(e: ASTNode) -> bool
    decreases e,
{
    match e.kind {
        Expression::Constant(_) | Expression::Variable(_) => true,
        Expression::Unary(_, x) | Expression::Cast(_, x) => lvalues_ok(*x),
        Expression::Prefix(_, x) | Expression::Postfix(_, x) => spec_is_lvalue_node(x.kind) && lvalues_ok(
            *x,
        ),
        Expression::Binary { left, right, .. } => lvalues_ok(*left) && lvalues_ok(*right),
        Expression::Assignment { left, right } => spec_is_lvalue_node(left.kind) && lvalues_ok(*left)
            && lvalues_ok(*right),
        Expression::Condition { condition, if_true, if_false } => lvalues_ok(*condition) && lvalues_ok(
            *if_true,
        ) && lvalues_ok(*if_false),
        Expression::FunctionCall(_, args) => args_lvalues_ok(*args),
    }
}

pub open spec fn args_lvalues_ok(a: Arguments) -> bool
    decreases a,
{
    match a {
        Arguments::Nil => true,
        Arguments::Cons(x, rest) => lvalues_ok(*x) && args_lvalues_ok(*rest),
    }
}

pub open spec fn parsed_ok(r: ExprRes<ASTNode>) -> bool {
    r matches Ok((e, _)) ==> lvalues_ok(e)
}

#[verifier::rlimit(30)]
pub proof fn lemma_primary_lvalues(toks: Seq<Token>, pos: int)
    ensures
        parsed_ok(spec_primary(toks, pos)),
    decreases toks.len() - pos, 1nat,
{
    if !out_of_range(toks, pos) {
        match tok(toks, pos) {
            Token::Symbol(s) => {
                if s == Symbol::OpenParenthesis {
                    if is_type_keyword(tok(toks, pos + 1)) {
                        let (specs, p2) = collect_specifiers(toks, pos + 1, false);
                        if moved(toks, p2, pos) && at(toks, p2, sym_tok(Symbol::CloseParenthesis)) {
                            lemma_unary_or_primary_lvalues(toks, p2 + 1);
                        }
                    } else {
                        lemma_binop_lvalues(toks, pos + 1, 0);
                    }
                }
            },
            Token::Name(_) => {
                if tok(toks, pos + 1) == sym_tok(Symbol::OpenParenthesis) {
                    lemma_arguments_lvalues(toks, pos + 2);
                }
            },
            _ => {},
        }
    }
}

pub proof fn lemma_unary_or_primary_lvalues(toks: Seq<Token>, pos: int)
    ensures
        parsed_ok(spec_unary_or_primary(toks, pos)),
    decreases toks.len() - pos, 2nat,
{
    if !out_of_range(toks, pos) {
        match tok(toks, pos) {
            Token::Symbol(Symbol::Unary(_)) | Token::Symbol(Symbol::Ambiguous(_)) => {
                lemma_unary_or_primary_lvalues(toks, pos + 1);
            },
            _ => {
                lemma_primary_lvalues(toks, pos);
            },
        }
    }
}

/// Every expression the parser builds applies its assignments, increments
/// and decrements to lvalues only.
pub proof fn lemma_binop_lvalues(toks: Seq<Token>, pos: int, min: i32)
    ensures
        parsed_ok(spec_binop(toks, pos, min)),
    decreases toks.len() - pos, 3nat,
{
    if !out_of_range(toks, pos) {
        lemma_unary_or_primary_lvalues(toks, pos);
        if let Ok((left, p1)) = spec_unary_or_primary(toks, pos) {
            if moved(toks, p1, pos) {
                lemma_binop_loop_lvalues(toks, p1, left, min);
            }
        }
    }
}

#[verifier::rlimit(30)]
pub proof fn lemma_binop_loop_lvalues(toks: Seq<Token>, pos: int, left: ASTNode, min: i32)
    requires
        lvalues_ok(left),
    ensures
        parsed_ok(spec_binop_loop(toks, pos, left, min)),
    decreases toks.len() - pos, 4nat,
{
    if !out_of_range(toks, pos) {
        if let Token::Symbol(s) = tok(toks, pos) {
            if !(!(s is Binary || s is Ambiguous) || spec_precedence(s) < min) {
                if tok(toks, pos + 1) == sym_tok(Symbol::Binary(BinaryOperator::Assign)) {
                    if spec_is_lvalue_node(left.kind) {
                        lemma_binop_lvalues(toks, pos + 2, 1);
                        if let Ok((right, p2)) = spec_binop(toks, pos + 2, 1) {
                            if let Some(v) = spec_extract_base_variable(left.kind) {
                                let bin = mk(
                                    Expression::Binary {
                                        op: compound_operator(s),
                                        left: Box::new(mk(Expression::Variable(v))),
                                        right: Box::new(right),
                                    },
                                );
                                let next = mk(
                                    Expression::Assignment { left: Box::new(left), right: Box::new(bin) },
                                );
                                assert(lvalues_ok(mk(Expression::Variable(v))));
                                assert(lvalues_ok(bin));
                                if moved(toks, p2, pos) {
                                    lemma_binop_loop_lvalues(toks, p2, next, min);
                                }
                            }
                        }
                    }
                } else if s == Symbol::Binary(BinaryOperator::Assign) {
                    if spec_is_lvalue_node(left.kind) {
                        lemma_binop_lvalues(toks, pos + 1, 1);
                        if let Ok((right, p2)) = spec_binop(toks, pos + 1, 1) {
                            let next = mk(
                                Expression::Assignment { left: Box::new(left), right: Box::new(right) },
                            );
                            if moved(toks, p2, pos) {
                                lemma_binop_loop_lvalues(toks, p2, next, min);
                            }
                        }
                    }
                } else if s == Symbol::Binary(BinaryOperator::Ternary) {
                    lemma_condition_lvalues(toks, pos + 1);
                    if let Ok((middle, p2)) = spec_condition(toks, pos + 1) {
                        if moved(toks, p2, pos) {
                            lemma_binop_lvalues(toks, p2, 3);
                            if let Ok((right, p3)) = spec_binop(toks, p2, 3) {
                                let next = mk(
                                    Expression::Condition {
                                        condition: Box::new(left),
                                        if_true: Box::new(middle),
                                        if_false: Box::new(right),
                                    },
                                );
                                if moved(toks, p3, pos) {
                                    lemma_binop_loop_lvalues(toks, p3, next, min);
                                }
                            }
                        }
                    }
                } else {
                    lemma_binop_lvalues(toks, pos + 1, (spec_precedence(s) + 1) as i32);
                    if let Ok((right, p2)) = spec_binop(toks, pos + 1, (spec_precedence(s) + 1) as i32) {
                        let next = mk(
                            Expression::Binary {
                                op: compound_operator(s),
                                left: Box::new(left),
                                right: Box::new(right),
                            },
                        );
                        if moved(toks, p2, pos) {
                            lemma_binop_loop_lvalues(toks, p2, next, min);
                        }
                    }
                }
            }
        }
    }
}

pub proof fn lemma_condition_lvalues(toks: Seq<Token>, pos: int)
    ensures
        parsed_ok(spec_condition(toks, pos)),
    decreases toks.len() - pos, 4nat,
{
    if !out_of_range(toks, pos) {
        lemma_binop_lvalues(toks, pos, 0);
    }
}

pub proof fn lemma_arguments_lvalues(toks: Seq<Token>, pos: int)
    ensures
        spec_arguments(toks, pos) matches Ok((a, _)) ==> args_lvalues_ok(a),
    decreases toks.len() - pos, 4nat,
{
    if !out_of_range(toks, pos) && !at(toks, pos, sym_tok(Symbol::CloseParenthesis)) {
        lemma_binop_lvalues(toks, pos, 0);
        if let Ok((_, p1)) = spec_binop(toks, pos, 0) {
            if moved(toks, p1, pos) {
                lemma_arguments_rest_lvalues(toks, p1);
            }
        }
    }
}

pub proof fn lemma_arguments_rest_lvalues(toks: Seq<Token>, pos: int)
    ensures
        spec_arguments_rest(toks, pos) matches Ok((a, _)) ==> args_lvalues_ok(a),
    decreases toks.len() - pos, 4nat,
{
    if !out_of_range(toks, pos) && !at(toks, pos, sym_tok(Symbol::CloseParenthesis)) && at(
        toks,
        pos,
        sym_tok(Symbol::Comma),
    ) {
        lemma_binop_lvalues(toks, pos + 1, 0);
        if let Ok((_, p1)) = spec_binop(toks, pos + 1, 0) {
            if moved(toks, p1, pos) {
                lemma_arguments_rest_lvalues(toks, p1);
            }
        }
    }
}


// ---------------------------------------------------------------------------
// What the parser guarantees of programs.
// ---------------------------------------------------------------------------

pub open spec fn opt_lvalues_ok(e: Option<Box<ASTNode>>) -> bool {
    match e {
        None => true,
        Some(x) => lvalues_ok(*x),
    }
}

pub open spec fn stmt_lvalues_ok(s: Statement) -> bool
    decreases s,
{
    match s {
        Statement::Return(e) | Statement::Expression(e) => lvalues_ok(*e),
        Statement::If { condition, if_true, if_false } => lvalues_ok(*condition) && stmt_lvalues_ok(
            *if_true,
        ) && match if_false {
            None => true,
            Some(f) => stmt_lvalues_ok(*f),
        },
        Statement::Compound(b) => items_lvalues_ok(*b),
        Statement::While { condition, body, .. } => lvalues_ok(*condition) && stmt_lvalues_ok(*body),
        Statement::For { init, condition, increment, body, .. } => (match *init {
            ForInit::InitDecl(d) => opt_lvalues_ok(d.init),
            ForInit::InitExp(x) => opt_lvalues_ok(x),
        }) && opt_lvalues_ok(condition) && opt_lvalues_ok(increment) && stmt_lvalues_ok(*body),
        Statement::Break(_) | Statement::Continue { .. } | Statement::Null => true,
    }
}

pub open spec fn item_lvalues_ok(item: BlockItem) -> bool
    decreases item,
{
    match item {
        BlockItem::D(Declaration::VariableDeclaration(d)) => opt_lvalues_ok(d.init),
        BlockItem::D(Declaration::FunctionDeclaration(f)) => match f.body {
            None => true,
            Some(body) => items_lvalues_ok(*body),
        },
        BlockItem::S(s) => stmt_lvalues_ok(s),
    }
}

pub open spec fn items_lvalues_ok(b: Block) -> bool
    decreases b,
{
    match b {
        Block::Nil => true,
        Block::Cons(item, rest) => item_lvalues_ok(*item) && items_lvalues_ok(*rest),
    }
}

pub open spec fn declaration_lvalues_ok(d: Declaration) -> bool {
    match d {
        Declaration::VariableDeclaration(v) => opt_lvalues_ok(v.init),
        Declaration::FunctionDeclaration(f) => match f.body {
            None => true,
            Some(body) => items_lvalues_ok(*body),
        },
    }
}

/// Every expression of the program applies its assignments, increments and
/// decrements to lvalues.
pub open spec fn program_lvalues_ok(p: Program) -> bool
    decreases p,
{
    match p {
        Program::Nil => true,
        Program::Cons(d, rest) => declaration_lvalues_ok(*d) && program_lvalues_ok(*rest),
    }
}

proof fn lemma_declaration_lvalues(toks: Seq<Token>, pos: int, t: Type, sc: Option<StorageClass>, name: Option<Name>)
    ensures
        spec_declaration(toks, pos, t, sc, name) matches Ok((d, _)) ==> opt_lvalues_ok(d.init),
{
    let (ident, p1) = match name {
        Some(n) => (Some(n), pos),
        None => match tok(toks, pos) {
            Token::Name(id) => (Some(Name::Source(id)), adv(toks, pos)),
            _ => (None, adv(toks, pos)),
        },
    };
    lemma_binop_lvalues(toks, p1 + 1, 0);
}

proof fn lemma_for_init_lvalues(toks: Seq<Token>, pos: int)
    ensures
        spec_for_init(toks, pos) matches Ok((init, _)) ==> match init {
            ForInit::InitDecl(d) => opt_lvalues_ok(d.init),
            ForInit::InitExp(x) => opt_lvalues_ok(x),
        },
{
    if is_type_keyword(tok(toks, pos)) {
        let (specs, p1) = collect_specifiers(toks, pos, true);
        if let Ok((t, sc)) = spec_parse_type_and_storage_class(specs) {
            lemma_declaration_lvalues(toks, p1, t, sc, None);
        }
    } else {
        lemma_binop_lvalues(toks, pos, 0);
    }
}

proof fn lemma_optional_expression_lvalues(toks: Seq<Token>, pos: int, stop: Symbol)
    ensures
        spec_optional_expression(toks, pos, stop) matches Ok((e, _)) ==> opt_lvalues_ok(e),
{
    lemma_binop_lvalues(toks, pos, 0);
}

#[verifier::rlimit(30)]
proof fn lemma_keyword_statement_lvalues(toks: Seq<Token>, pos: int, lab: int)
    requires
        !out_of_range(toks, pos),
        tok(toks, pos) is Keyword,
    ensures
        spec_statement(toks, pos, lab) matches Ok((s, _, _)) ==> stmt_lvalues_ok(s),
    decreases toks.len() - pos, 1nat,
{
    let p = pos + 1;
    match tok(toks, pos) {
        Token::Keyword(Keyword::Return) => {
            lemma_binop_lvalues(toks, p, 0);
        },
        Token::Keyword(Keyword::If) => {
            if at(toks, p, sym_tok(Symbol::OpenParenthesis)) {
                lemma_binop_lvalues(toks, p + 1, 0);
                if let Ok((_, p1)) = spec_binop(toks, p + 1, 0) {
                    if at(toks, p1, sym_tok(Symbol::CloseParenthesis)) && moved(toks, p1 + 1, pos) {
                        lemma_statement_lvalues(toks, p1 + 1, lab);
                        if let Ok((_, p2, l2)) = spec_statement(toks, p1 + 1, lab) {
                            if moved(toks, p2 + 1, pos) {
                                lemma_statement_lvalues(toks, p2 + 1, l2);
                            }
                        }
                    }
                }
            }
        },
        Token::Keyword(Keyword::While) => {
            lemma_binop_lvalues(toks, p + 1, 0);
            if let Ok((_, p1)) = spec_binop(toks, p + 1, 0) {
                if moved(toks, p1 + 1, pos) {
                    lemma_statement_lvalues(toks, p1 + 1, lab + 1);
                }
            }
        },
        Token::Keyword(Keyword::Do) => {
            lemma_statement_lvalues(toks, p, lab + 1);
            if let Ok((_, p1, _)) = spec_statement(toks, p, lab + 1) {
                lemma_binop_lvalues(toks, p1 + 2, 0);
            }
        },
        Token::Keyword(Keyword::For) => {
            lemma_for_init_lvalues(toks, p + 1);
            if let Ok((_, p1)) = spec_for_init(toks, p + 1) {
                lemma_optional_expression_lvalues(toks, p1 + 1, Symbol::Semicolon);
                if let Ok((_, p2)) = spec_optional_expression(toks, p1 + 1, Symbol::Semicolon) {
                    lemma_optional_expression_lvalues(toks, p2 + 1, Symbol::CloseParenthesis);
                    if let Ok((_, p3)) = spec_optional_expression(toks, p2 + 1, Symbol::CloseParenthesis) {
                        if moved(toks, p3 + 1, pos) {
                            lemma_statement_lvalues(toks, p3 + 1, lab + 1);
                        }
                    }
                }
            }
        },
        _ => {},
    }
}

/// Every statement the parser builds applies its assignments, increments and
/// decrements to lvalues.
pub proof fn lemma_statement_lvalues(toks: Seq<Token>, pos: int, lab: int)
    ensures
        spec_statement(toks, pos, lab) matches Ok((s, _, _)) ==> stmt_lvalues_ok(s),
    decreases toks.len() - pos, 2nat,
{
    if !out_of_range(toks, pos) {
        match tok(toks, pos) {
            Token::Keyword(_) => lemma_keyword_statement_lvalues(toks, pos, lab),
            Token::Symbol(Symbol::OpenBrace) => lemma_block_items_lvalues(toks, pos + 1, lab),
            Token::Symbol(Symbol::Semicolon) => {},
            _ => lemma_binop_lvalues(toks, pos, 0),
        }
    }
}

proof fn lemma_block_item_lvalues(toks: Seq<Token>, pos: int, lab: int)
    ensures
        spec_block_item(toks, pos, lab) matches Ok((item, _, _)) ==> item_lvalues_ok(item),
    decreases toks.len() - pos, 3nat,
{
    if !out_of_range(toks, pos) {
        if is_specifier_keyword(tok(toks, pos)) {
            let (specs, p1) = collect_specifiers(toks, pos, true);
            if let Ok((t, sc)) = spec_parse_type_and_storage_class(specs) {
                lemma_declaration_lvalues(toks, p1, t, sc, None);
            }
        } else {
            lemma_statement_lvalues(toks, pos, lab);
        }
    }
}

proof fn lemma_block_items_lvalues(toks: Seq<Token>, pos: int, lab: int)
    ensures
        spec_block_items(toks, pos, lab) matches Ok((b, _, _)) ==> items_lvalues_ok(b),
    decreases toks.len() - pos, 4nat,
{
    if !out_of_range(toks, pos) && tok(toks, pos) != sym_tok(Symbol::CloseBrace) && tok(toks, pos)
        != Token::EOF {
        lemma_block_item_lvalues(toks, pos, lab);
        if let Ok((_, p1, l1)) = spec_block_item(toks, pos, lab) {
            if moved(toks, p1, pos) {
                lemma_block_items_lvalues(toks, p1, l1);
            }
        }
    }
}

proof fn lemma_top_level_lvalues(toks: Seq<Token>, pos: int, lab: int)
    ensures
        spec_top_level(toks, pos, lab) matches Ok((d, _, _)) ==> declaration_lvalues_ok(d),
{
    let (specs, p1) = collect_specifiers(toks, pos, true);
    if let Ok((t, sc)) = spec_parse_type_and_storage_class(specs) {
        if let Token::Name(id) = tok(toks, p1) {
            let p2 = p1 + 1;
            if tok(toks, p2) == sym_tok(Symbol::OpenParenthesis) {
                if let Ok((_, _, p3)) = spec_params(toks, p2) {
                    lemma_block_items_lvalues(toks, p3 + 1, lab);
                }
            } else {
                lemma_declaration_lvalues(toks, p2, t, sc, Some(Name::Source(id)));
            }
        }
    }
}

proof fn lemma_program_from_lvalues(toks: Seq<Token>, pos: int, lab: int)
    ensures
        spec_program_from(toks, pos, lab) matches Ok((p, _)) ==> program_lvalues_ok(p),
    decreases toks.len() - pos,
{
    if !out_of_range(toks, pos) && tok(toks, pos) != Token::EOF {
        lemma_top_level_lvalues(toks, pos, lab);
        if let Ok((_, p1, l1)) = spec_top_level(toks, pos, lab) {
            if moved(toks, p1, pos) {
                lemma_program_from_lvalues(toks, p1, l1);
            }
        }
    }
}

/// Every assignment, increment and decrement of a parsed program applies to
/// an lvalue: a variable, or a prefix increment or decrement of one.
pub proof fn lemma_parse_program_lvalues(toks: Seq<Token>)
    ensures
        spec_parse_program(toks) matches Ok(p) ==> program_lvalues_ok(p),
{
    lemma_program_from_lvalues(toks, 0, 0);
}


// ---------------------------------------------------------------------------
// Loop labels: the parser numbers loops one after another.
// ---------------------------------------------------------------------------

proof fn lemma_consecutive_concat(a: int, b: int, c: int)
    requires
        a <= b <= c,
    ensures
        consecutive(a, b) + consecutive(b, c) =~= consecutive(a, c),
{
}

proof fn lemma_consecutive_cons(a: int, c: int)
    requires
        a < c,
    ensures
        seq![a as u64] + consecutive(a + 1, c) =~= consecutive(a, c),
{
}

/// How a parse step that hands out loop labels from `lab` to `l` numbers the
/// loops it builds.
pub open spec fn numbered(ids: Seq<u64>, lab: int, l: int) -> bool {
    &&& lab <= l
    &&& l > lab ==> 0 <= lab && l <= u64::MAX
    &&& ids =~= consecutive(lab, l)
}

proof fn lemma_keyword_statement_loop_ids(toks: Seq<Token>, pos: int, lab: int)
    requires
        !out_of_range(toks, pos),
        tok(toks, pos) is Keyword,
    ensures
        spec_statement(toks, pos, lab) matches Ok((s, _, l)) ==> numbered(loop_ids(s), lab, l),
    decreases toks.len() - pos, 1nat,
{
    let p = pos + 1;
    match tok(toks, pos) {
        Token::Keyword(Keyword::If) => {
            if at(toks, p, sym_tok(Symbol::OpenParenthesis)) {
                if let Ok((_, p1)) = spec_binop(toks, p + 1, 0) {
                    if at(toks, p1, sym_tok(Symbol::CloseParenthesis)) && moved(toks, p1 + 1, pos) {
                        lemma_statement_loop_ids(toks, p1 + 1, lab);
                        if let Ok((_, p2, l2)) = spec_statement(toks, p1 + 1, lab) {
                            if moved(toks, p2 + 1, pos) {
                                lemma_statement_loop_ids(toks, p2 + 1, l2);
                                if let Ok((_, _, l3)) = spec_statement(toks, p2 + 1, l2) {
                                    lemma_consecutive_concat(lab, l2, l3);
                                }
                            }
                            assert(consecutive(lab, l2) + Seq::<u64>::empty() =~= consecutive(lab, l2));
                        }
                    }
                }
            }
        },
        Token::Keyword(Keyword::While) => {
            if let Ok((_, p1)) = spec_binop(toks, p + 1, 0) {
                if moved(toks, p1 + 1, pos) {
                    lemma_statement_loop_ids(toks, p1 + 1, lab + 1);
                    if let Ok((_, _, l2)) = spec_statement(toks, p1 + 1, lab + 1) {
                        lemma_consecutive_cons(lab, l2);
                    }
                }
            }
        },
        Token::Keyword(Keyword::Do) => {
            lemma_statement_loop_ids(toks, p, lab + 1);
            if let Ok((_, _, l1)) = spec_statement(toks, p, lab + 1) {
                lemma_consecutive_cons(lab, l1);
            }
        },
        Token::Keyword(Keyword::For) => {
            if let Ok((_, p1)) = spec_for_init(toks, p + 1) {
                if let Ok((_, p2)) = spec_optional_expression(toks, p1 + 1, Symbol::Semicolon) {
                    if let Ok((_, p3)) = spec_optional_expression(toks, p2 + 1, Symbol::CloseParenthesis) {
                        if moved(toks, p3 + 1, pos) {
                            lemma_statement_loop_ids(toks, p3 + 1, lab + 1);
                            if let Ok((_, _, l4)) = spec_statement(toks, p3 + 1, lab + 1) {
                                lemma_consecutive_cons(lab, l4);
                            }
                        }
                    }
                }
            }
        },
        _ => {},
    }
}

/// The parser gives the loops of a statement the labels it hands out, one
/// after another.
pub proof fn lemma_statement_loop_ids(toks: Seq<Token>, pos: int, lab: int)
    ensures
        spec_statement(toks, pos, lab) matches Ok((s, _, l)) ==> numbered(loop_ids(s), lab, l),
    decreases toks.len() - pos, 2nat,
{
    if !out_of_range(toks, pos) {
        match tok(toks, pos) {
            Token::Keyword(_) => lemma_keyword_statement_loop_ids(toks, pos, lab),
            Token::Symbol(Symbol::OpenBrace) => lemma_block_items_loop_ids(toks, pos + 1, lab),
            _ => {},
        }
    }
}

proof fn lemma_block_item_loop_ids(toks: Seq<Token>, pos: int, lab: int)
    ensures
        spec_block_item(toks, pos, lab) matches Ok((item, _, l)) ==> numbered(
            match item {
                BlockItem::S(s) => loop_ids(s),
                BlockItem::D(_) => Seq::empty(),
            },
            lab,
            l,
        ),
    decreases toks.len() - pos, 3nat,
{
    if !out_of_range(toks, pos) && !is_specifier_keyword(tok(toks, pos)) {
        lemma_statement_loop_ids(toks, pos, lab);
    }
}

proof fn lemma_block_items_loop_ids(toks: Seq<Token>, pos: int, lab: int)
    ensures
        spec_block_items(toks, pos, lab) matches Ok((b, _, l)) ==> numbered(items_loop_ids(b), lab, l),
    decreases toks.len() - pos, 4nat,
{
    if !out_of_range(toks, pos) && tok(toks, pos) != sym_tok(Symbol::CloseBrace) && tok(toks, pos)
        != Token::EOF {
        lemma_block_item_loop_ids(toks, pos, lab);
        if let Ok((_, p1, l1)) = spec_block_item(toks, pos, lab) {
            if moved(toks, p1, pos) {
                lemma_block_items_loop_ids(toks, p1, l1);
                if let Ok((_, _, l2)) = spec_block_items(toks, p1, l1) {
                    lemma_consecutive_concat(lab, l1, l2);
                }
            }
        }
    }
}

/// The loop labels of the function bodies of a program, in order.
pub open spec fn program_loop_ids(p: Program) -> Seq<u64>
    decreases p,
{
    match p {
        Program::Nil => Seq::empty(),
        Program::Cons(d, rest) => (match *d {
            Declaration::FunctionDeclaration(f) => match f.body {
                Some(b) => items_loop_ids(*b),
                None => Seq::empty(),
            },
            Declaration::VariableDeclaration(_) => Seq::empty(),
        }) + program_loop_ids(*rest),
    }
}

proof fn lemma_top_level_loop_ids(toks: Seq<Token>, pos: int, lab: int)
    ensures
        spec_top_level(toks, pos, lab) matches Ok((d, _, l)) ==> numbered(
            match d {
                Declaration::FunctionDeclaration(f) => match f.body {
                    Some(b) => items_loop_ids(*b),
                    None => Seq::empty(),
                },
                Declaration::VariableDeclaration(_) => Seq::empty(),
            },
            lab,
            l,
        ),
{
    let (specs, p1) = collect_specifiers(toks, pos, true);
    if let Ok((t, sc)) = spec_parse_type_and_storage_class(specs) {
        if let Token::Name(id) = tok(toks, p1) {
            let p2 = p1 + 1;
            if tok(toks, p2) == sym_tok(Symbol::OpenParenthesis) {
                if let Ok((_, _, p3)) = spec_params(toks, p2) {
                    lemma_block_items_loop_ids(toks, p3 + 1, lab);
                }
            }
        }
    }
}

proof fn lemma_program_from_loop_ids(toks: Seq<Token>, pos: int, lab: int)
    ensures
        spec_program_from(toks, pos, lab) matches Ok((p, _)) ==> program_loop_ids(p).no_duplicates(),
        spec_program_from(toks, pos, lab) matches Ok((p, _)) ==> (forall|i: int|
            0 <= i < program_loop_ids(p).len() ==> lab <= #[trigger] program_loop_ids(p)[i]),
    decreases toks.len() - pos,
{
    if !out_of_range(toks, pos) && tok(toks, pos) != Token::EOF {
        lemma_top_level_loop_ids(toks, pos, lab);
        if let Ok((d, p1, l1)) = spec_top_level(toks, pos, lab) {
            if moved(toks, p1, pos) {
                lemma_program_from_loop_ids(toks, p1, l1);
                if let Ok((rest, _)) = spec_program_from(toks, p1, l1) {
                    let a = consecutive(lab, l1);
                    let b = program_loop_ids(rest);
                    let c = a + b;
                    assert forall|i: int, j: int| 0 <= i < c.len() && 0 <= j < c.len() && i != j implies c[i]
                        != c[j] by {
                        if i < a.len() && j < a.len() {
                        } else if i < a.len() {
                            assert(c[j] == b[j - a.len()]);
                        } else if j < a.len() {
                            assert(c[i] == b[i - a.len()]);
                        } else {
                            assert(c[i] == b[i - a.len()]);
                            assert(c[j] == b[j - a.len()]);
                        }
                    }
                    assert forall|i: int| 0 <= i < c.len() implies lab <= #[trigger] c[i] by {
                        if i >= a.len() {
                            assert(c[i] == b[i - a.len()]);
                        }
                    }
                }
            }
        }
    }
}

/// Whether the loops of every function body of the program carry labels of
/// their own.
pub open spec fn bodies_loop_ids_distinct(p: Program) -> bool
    decreases p,
{
    match p {
        Program::Nil => true,
        Program::Cons(d, rest) => (match *d {
            Declaration::FunctionDeclaration(f) => match f.body {
                Some(b) => items_loop_ids(*b).no_duplicates(),
                None => true,
            },
            Declaration::VariableDeclaration(_) => true,
        }) && bodies_loop_ids_distinct(*rest),
    }
}

proof fn lemma_bodies_loop_ids_distinct(p: Program)
    requires
        program_loop_ids(p).no_duplicates(),
    ensures
        bodies_loop_ids_distinct(p),
    decreases p,
{
    if let Program::Cons(d, rest) = p {
        let a = match *d {
            Declaration::FunctionDeclaration(f) => match f.body {
                Some(b) => items_loop_ids(*b),
                None => Seq::empty(),
            },
            Declaration::VariableDeclaration(_) => Seq::empty(),
        };
        let b = program_loop_ids(*rest);
        let c = a + b;
        assert forall|i: int, j: int| 0 <= i < a.len() && 0 <= j < a.len() && i != j implies a[i] != a[j] by {
            assert(c[i] == a[i]);
            assert(c[j] == a[j]);
        }
        assert forall|i: int, j: int| 0 <= i < b.len() && 0 <= j < b.len() && i != j implies b[i] != b[j] by {
            assert(c[a.len() + i] == b[i]);
            assert(c[a.len() + j] == b[j]);
        }
        lemma_bodies_loop_ids_distinct(*rest);
    }
}

/// The parser gives every loop of a program a label of its own, so the loops
/// of each function body carry distinct labels.
pub proof fn lemma_parse_program_loop_ids(toks: Seq<Token>)
    ensures
        spec_parse_program(toks) matches Ok(p) ==> program_loop_ids(p).no_duplicates()
            && bodies_loop_ids_distinct(p),
{
    lemma_program_from_loop_ids(toks, 0, 0);
    if let Ok(p) = spec_parse_program(toks) {
        lemma_bodies_loop_ids_distinct(p);
    }
}


// ---------------------------------------------------------------------------
// How tightly operators bind.
// ---------------------------------------------------------------------------

pub open spec fn multiplicative(op: BinaryOperator) -> bool {
    op == BinaryOperator::Multiply || op == BinaryOperator::Divide || op == BinaryOperator::Modulo
}

/// `+` and `-`, whether the lexer could tell them from the unary operators
/// or not.
pub open spec fn additive(s: Symbol) -> bool {
    s is Ambiguous || s == Symbol::Binary(BinaryOperator::Addition) || s == Symbol::Binary(
        BinaryOperator::Subtraction,
    )
}

pub open spec fn shift_op(op: BinaryOperator) -> bool {
    op == BinaryOperator::BitwiseShiftLeft || op == BinaryOperator::BitwiseShiftRight
}

pub open spec fn relational(op: BinaryOperator) -> bool {
    op == BinaryOperator::LessThan || op == BinaryOperator::LessThanOrEquals || op
        == BinaryOperator::GreaterThan || op == BinaryOperator::GreaterThanOrEquals
}

pub open spec fn equality(op: BinaryOperator) -> bool {
    op == BinaryOperator::Equals || op == BinaryOperator::NotEquals
}

/// The binding of operators, from tightest to loosest: `* / %`, then `+ -`
/// (all at one level) and the shifts, then `< <= > >=`, `== !=`, `&`, `^`,
/// `|`, `&&`, `||`, `?:`, and `=` loosest; every operator binds (its
/// precedence is positive) and no other symbol does.
pub proof fn lemma_precedence_order()
    ensures
        forall|m: BinaryOperator, a: Symbol|
            multiplicative(m) && additive(a) ==> spec_precedence(Symbol::Binary(m)) > spec_precedence(
                a,
            ),
        forall|a: Symbol, b: Symbol|
            additive(a) && additive(b) ==> spec_precedence(a) == spec_precedence(b),
        forall|a: Symbol, h: BinaryOperator|
            additive(a) && shift_op(h) ==> spec_precedence(a) >= spec_precedence(Symbol::Binary(h)),
        forall|h: BinaryOperator, r: BinaryOperator|
            shift_op(h) && relational(r) ==> spec_precedence(Symbol::Binary(h)) > spec_precedence(
                Symbol::Binary(r),
            ),
        forall|r: BinaryOperator, e: BinaryOperator|
            relational(r) && equality(e) ==> spec_precedence(Symbol::Binary(r)) > spec_precedence(
                Symbol::Binary(e),
            ),
        forall|e: BinaryOperator|
            equality(e) ==> spec_precedence(Symbol::Binary(e)) > spec_precedence(
                Symbol::Binary(BinaryOperator::BitwiseAnd),
            ),
        spec_precedence(Symbol::Binary(BinaryOperator::BitwiseAnd)) > spec_precedence(
            Symbol::Binary(BinaryOperator::BitwiseXor),
        ),
        spec_precedence(Symbol::Binary(BinaryOperator::BitwiseXor)) > spec_precedence(
            Symbol::Binary(BinaryOperator::BitwiseOr),
        ),
        spec_precedence(Symbol::Binary(BinaryOperator::BitwiseOr)) > spec_precedence(
            Symbol::Binary(BinaryOperator::LogicalAnd),
        ),
        spec_precedence(Symbol::Binary(BinaryOperator::LogicalAnd)) > spec_precedence(
            Symbol::Binary(BinaryOperator::LogicalOr),
        ),
        spec_precedence(Symbol::Binary(BinaryOperator::LogicalOr)) > spec_precedence(
            Symbol::Binary(BinaryOperator::Ternary),
        ),
        spec_precedence(Symbol::Binary(BinaryOperator::Ternary)) > spec_precedence(
            Symbol::Binary(BinaryOperator::Assign),
        ),
        forall|op: BinaryOperator| spec_precedence(Symbol::Binary(op)) > 0,
        forall|a: Symbol| a is Ambiguous ==> spec_precedence(a) > 0,
        forall|s: Symbol| !(s is Binary) && !(s is Ambiguous) ==> spec_precedence(s) < 0,
{
}

} // verus!
