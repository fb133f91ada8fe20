use crate::ast::{
    ASTNode, Arguments, Block, BlockItem, Const, Declaration, Expression, ForInit,
    FunctionDeclaration, Name, NameList, Statement, VariableDeclaration,
};
use crate::errors::{step_outcome, CompilerError, ErrorKind};
use crate::lexer::{StorageClass, Type};
use crate::parser::plain_outcome;
use crate::symbols::{
    assoc_contains, assoc_find, assoc_get, assoc_insert, assoc_put, type_list_len, FunAttr,
    InitialValue, StaticAttr,
};
use crate::ast::TypeList;
use vstd::prelude::*;

verus! {

/// A variable visible in some scope: the name as written, the block depth it
/// was declared at, whether it refers to an `extern` object, and the name it
/// is renamed to.
#[derive(Debug, Clone, Copy, PartialEq, Eq, Structural)]
pub struct ScopeEntry {
    pub name: usize,
    pub layer: u64,
    pub is_extern: bool,
    pub unique_name: Name,
}

/// The model of the resolver's state: the scope stack (innermost last), the
/// current block depth, the enclosing loops (innermost last, with whether each
/// is a `for` loop), the function being resolved and the objects of static
/// storage duration seen so far.
pub struct ResolveState {
    pub scopes: Seq<ScopeEntry>,
    pub layer: int,
    pub loops: Seq<(u64, bool)>,
    pub function: usize,
    pub globals: Seq<(Name, StaticAttr)>,
}

// ---------------------------------------------------------------------------
// The model of variable resolution.
// ---------------------------------------------------------------------------

/// The innermost entry for `name` among the first `i` entries.
pub open spec fn last_entry_from(s: Seq<ScopeEntry>, name: usize, i: int) -> Option<ScopeEntry>
    decreases i,
{
    if i <= 0 || i > s.len() {
        None
    } else if s[i - 1].name == name {
        Some(s[i - 1])
    } else {
        last_entry_from(s, name, i - 1)
    }
}

pub open spec fn last_entry(s: Seq<ScopeEntry>, name: usize) -> Option<ScopeEntry> {
    last_entry_from(s, name, s.len() as int)
}

/// The scope stack with the entries of block depth `layer` removed from its top.
pub open spec fn pop_layer(s: Seq<ScopeEntry>, layer: int) -> Seq<ScopeEntry>
    decreases s.len(),
{
    if s.len() > 0 && s.last().layer == layer {
        pop_layer(s.drop_last(), layer)
    } else {
        s
    }
}

/// What a variable name refers to: the innermost declaration in scope
/// (an `extern` one keeps its name), else an object of static storage
/// duration with that name.
pub open spec fn spec_lookup(st: ResolveState, n: Name) -> Option<Name> {
    let in_scope = match n {
        Name::Source(id) => last_entry(st.scopes, id),
        _ => None,
    };
    match in_scope {
        Some(e) => if e.is_extern {
            Some(n)
        } else {
            Some(e.unique_name)
        },
        None => if assoc_contains(st.globals, n) {
            Some(n)
        } else {
            None
        },
    }
}

pub open spec fn args_len(a: Arguments) -> nat
    decreases a,
{
    match a {
        Arguments::Nil => 0,
        Arguments::Cons(_, rest) => 1 + args_len(*rest),
    }
}

pub open spec fn with_kind(e: ASTNode, k: Expression) -> ASTNode {
    ASTNode { kind: k, type_: e.type_ }
}

pub open spec fn spec_resolve_expr(
    funcs: Seq<(Name, FunAttr)>,
    st: ResolveState,
    e: ASTNode,
) -> Result<ASTNode, ErrorKind>
    decreases e,
{
    match e.kind {
        Expression::Constant(_) => Ok(e),
        Expression::Variable(n) => match spec_lookup(st, n) {
            Some(m) => Ok(with_kind(e, Expression::Variable(m))),
            None => Err(ErrorKind::Semantic),
        },
        Expression::Unary(op, x) => match spec_resolve_expr(funcs, st, *x) {
            Ok(y) => Ok(with_kind(e, Expression::Unary(op, Box::new(y)))),
            Err(k) => Err(k),
        },
        Expression::Binary { op, left, right } => match spec_resolve_expr(funcs, st, *left) {
            Err(k) => Err(k),
            Ok(l) => match spec_resolve_expr(funcs, st, *right) {
                Err(k) => Err(k),
                Ok(r) => Ok(
                    with_kind(e, Expression::Binary { op, left: Box::new(l), right: Box::new(r) }),
                ),
            },
        },
        Expression::Assignment { left, right } => match spec_resolve_expr(funcs, st, *left) {
            Err(k) => Err(k),
            Ok(l) => match spec_resolve_expr(funcs, st, *right) {
                Err(k) => Err(k),
                Ok(r) => Ok(
                    with_kind(e, Expression::Assignment { left: Box::new(l), right: Box::new(r) }),
                ),
            },
        },
        Expression::Condition { condition, if_true, if_false } => match spec_resolve_expr(
            funcs,
            st,
            *condition,
        ) {
            Err(k) => Err(k),
            Ok(c) => match spec_resolve_expr(funcs, st, *if_true) {
                Err(k) => Err(k),
                Ok(t) => match spec_resolve_expr(funcs, st, *if_false) {
                    Err(k) => Err(k),
                    Ok(f) => Ok(
                        with_kind(
                            e,
                            Expression::Condition {
                                condition: Box::new(c),
                                if_true: Box::new(t),
                                if_false: Box::new(f),
                            },
                        ),
                    ),
                },
            },
        },
        Expression::FunctionCall(f, args) => match assoc_get(funcs, f) {
            None => Err(ErrorKind::Semantic),
            Some(attr) => if args_len(*args) != type_list_len(attr.func_type.params) {
                Err(ErrorKind::Semantic)
            } else {
                match spec_resolve_args(funcs, st, *args) {
                    Err(k) => Err(k),
                    Ok(a) => Ok(with_kind(e, Expression::FunctionCall(f, Box::new(a)))),
                }
            },
        },
        Expression::Prefix(op, x) => match spec_resolve_expr(funcs, st, *x) {
            Ok(y) => Ok(with_kind(e, Expression::Prefix(op, Box::new(y)))),
            Err(k) => Err(k),
        },
        Expression::Postfix(op, x) => match spec_resolve_expr(funcs, st, *x) {
            Ok(y) => Ok(with_kind(e, Expression::Postfix(op, Box::new(y)))),
            Err(k) => Err(k),
        },
        Expression::Cast(t, x) => match spec_resolve_expr(funcs, st, *x) {
            Ok(y) => Ok(with_kind(e, Expression::Cast(t, Box::new(y)))),
            Err(k) => Err(k),
        },
    }
}

pub open spec fn spec_resolve_args(
    funcs: Seq<(Name, FunAttr)>,
    st: ResolveState,
    a: Arguments,
) -> Result<Arguments, ErrorKind>
    decreases a,
{
    match a {
        Arguments::Nil => Ok(Arguments::Nil),
        Arguments::Cons(x, rest) => match spec_resolve_expr(funcs, st, *x) {
            Err(k) => Err(k),
            Ok(y) => match spec_resolve_args(funcs, st, *rest) {
                Err(k) => Err(k),
                Ok(r) => Ok(Arguments::Cons(Box::new(y), Box::new(r))),
            },
        },
    }
}

/// The zero constant of a type.
pub open spec fn spec_zero_of(t: Type) -> Const {
    match t {
        Type::Long => Const::ConstLong(0),
        Type::UInt => Const::ConstUInt(0),
        Type::ULong => Const::ConstULong(0),
        _ => Const::ConstInt(0),
    }
}

/// The initial value of a static local: its constant initialiser as written,
/// or the `int` zero. `None` when the initialiser is not a constant.
pub open spec fn spec_static_init(init: Option<Box<ASTNode>>) -> Option<InitialValue> {
    match init {
        None => Some(InitialValue::Initial(Const::ConstInt(0))),
        Some(e) => match e.kind {
            Expression::Constant(c) => Some(InitialValue::Initial(c)),
            _ => None,
        },
    }
}

pub open spec fn push_scope(st: ResolveState, e: ScopeEntry) -> ResolveState {
    ResolveState { scopes: st.scopes.push(e), ..st }
}

pub open spec fn renamed(d: VariableDeclaration, n: Name) -> VariableDeclaration {
    VariableDeclaration { name: n, init: d.init, storage_class: d.storage_class, var_type: d.var_type }
}

/// A variable declared in a block.
pub open spec fn spec_resolve_var_decl(
    funcs: Seq<(Name, FunAttr)>,
    st: ResolveState,
    d: VariableDeclaration,
) -> Result<(VariableDeclaration, ResolveState), ErrorKind> {
    match d.name {
        Name::Source(id) => if assoc_contains(funcs, d.name) {
            Err(ErrorKind::Semantic)
        } else if (last_entry(st.scopes, id) matches Some(prev) && prev.layer == st.layer) {
            Err(ErrorKind::Semantic)
        } else {
            let layer = st.layer as u64;
            match d.storage_class {
                Some(StorageClass::Extern) => if d.init is Some {
                    Err(ErrorKind::Semantic)
                } else {
                    let entry = ScopeEntry { name: id, layer, is_extern: true, unique_name: d.name };
                    match assoc_get(st.globals, d.name) {
                        Some(attr) => if attr.type_ != d.var_type {
                            Err(ErrorKind::Semantic)
                        } else {
                            Ok((d, push_scope(st, entry)))
                        },
                        None => {
                            let attr = StaticAttr {
                                init: InitialValue::NoInitializer,
                                global: true,
                                type_: d.var_type,
                            };
                            Ok(
                                (
                                    d,
                                    push_scope(
                                        ResolveState { globals: st.globals.push((d.name, attr)), ..st },
                                        entry,
                                    ),
                                ),
                            )
                        },
                    }
                },
                Some(StorageClass::Static) => match spec_static_init(d.init) {
                    None => Err(ErrorKind::Semantic),
                    Some(iv) => {
                        let u = Name::StaticLocal { function: st.function, name: id };
                        let attr = StaticAttr { init: iv, global: false, type_: d.var_type };
                        let entry = ScopeEntry { name: id, layer, is_extern: false, unique_name: u };
                        Ok(
                            (
                                renamed(d, u),
                                push_scope(
                                    ResolveState { globals: assoc_insert(st.globals, u, attr), ..st },
                                    entry,
                                ),
                            ),
                        )
                    },
                },
                None => {
                    let u = Name::Local { function: st.function, name: id, layer };
                    let st1 = push_scope(
                        st,
                        ScopeEntry { name: id, layer, is_extern: false, unique_name: u },
                    );
                    match d.init {
                        None => Ok((renamed(d, u), st1)),
                        Some(x) => match spec_resolve_expr(funcs, st1, *x) {
                            Err(k) => Err(k),
                            Ok(y) => Ok(
                                (
                                    VariableDeclaration {
                                        name: u,
                                        init: Some(Box::new(y)),
                                        storage_class: d.storage_class,
                                        var_type: d.var_type,
                                    },
                                    st1,
                                ),
                            ),
                        },
                    }
                },
            }
        },
        _ => Err(ErrorKind::Semantic),
    }
}

pub open spec fn spec_resolve_opt(
    funcs: Seq<(Name, FunAttr)>,
    st: ResolveState,
    e: Option<Box<ASTNode>>,
) -> Result<Option<Box<ASTNode>>, ErrorKind> {
    match e {
        None => Ok(None),
        Some(x) => match spec_resolve_expr(funcs, st, *x) {
            Err(k) => Err(k),
            Ok(y) => Ok(Some(Box::new(y))),
        },
    }
}

/// The state after leaving a block opened at depth `st.layer + 1`.
pub open spec fn leave_block(st: ResolveState, inner: ResolveState) -> ResolveState {
    ResolveState { scopes: pop_layer(inner.scopes, st.layer + 1), layer: st.layer, ..inner }
}

/// The state after leaving a loop entered in state `st`.
pub open spec fn leave_loop(st: ResolveState, inner: ResolveState) -> ResolveState {
    ResolveState { loops: st.loops, ..inner }
}

pub open spec fn enter_loop(st: ResolveState, label: u64, is_for: bool) -> ResolveState {
    ResolveState { loops: st.loops.push((label, is_for)), ..st }
}

pub open spec fn enter_block(st: ResolveState) -> ResolveState {
    ResolveState { layer: st.layer + 1, ..st }
}

pub open spec fn layer_full(st: ResolveState) -> bool {
    st.layer >= u64::MAX
}

pub open spec fn spec_resolve_stmt(
    funcs: Seq<(Name, FunAttr)>,
    st: ResolveState,
    s: Statement,
) -> Result<(Statement, ResolveState), ErrorKind>
    decreases s,
{
    match s {
        Statement::Return(e) => match spec_resolve_expr(funcs, st, *e) {
            Err(k) => Err(k),
            Ok(y) => Ok((Statement::Return(Box::new(y)), st)),
        },
        Statement::Expression(e) => match spec_resolve_expr(funcs, st, *e) {
            Err(k) => Err(k),
            Ok(y) => Ok((Statement::Expression(Box::new(y)), st)),
        },
        Statement::If { condition, if_true, if_false } => match spec_resolve_expr(
            funcs,
            st,
            *condition,
        ) {
            Err(k) => Err(k),
            Ok(c) => match spec_resolve_stmt(funcs, st, *if_true) {
                Err(k) => Err(k),
                Ok((t, st1)) => match if_false {
                    None => Ok(
                        (Statement::If { condition: Box::new(c), if_true: Box::new(t), if_false: None }, st1),
                    ),
                    Some(f) => match spec_resolve_stmt(funcs, st1, *f) {
                        Err(k) => Err(k),
                        Ok((f2, st2)) => Ok(
                            (
                                Statement::If {
                                    condition: Box::new(c),
                                    if_true: Box::new(t),
                                    if_false: Some(Box::new(f2)),
                                },
                                st2,
                            ),
                        ),
                    },
                },
            },
        },
        Statement::Compound(b) => if layer_full(st) {
            Err(ErrorKind::Semantic)
        } else {
            match spec_resolve_items(funcs, enter_block(st), *b) {
                Err(k) => Err(k),
                Ok((b2, st2)) => Ok((Statement::Compound(Box::new(b2)), leave_block(st, st2))),
            }
        },
        Statement::Break(_) => if st.loops.len() == 0 {
            Err(ErrorKind::Semantic)
        } else {
            Ok((Statement::Break(st.loops.last().0), st))
        },
        Statement::Continue { .. } => if st.loops.len() == 0 {
            Err(ErrorKind::Semantic)
        } else {
            Ok((Statement::Continue { label: st.loops.last().0, is_for: st.loops.last().1 }, st))
        },
        Statement::While { condition, body, label, is_do_while } => {
            let st1 = enter_loop(st, label, false);
            match spec_resolve_expr(funcs, st1, *condition) {
                Err(k) => Err(k),
                Ok(c) => match spec_resolve_stmt(funcs, st1, *body) {
                    Err(k) => Err(k),
                    Ok((b, st2)) => Ok(
                        (
                            Statement::While { condition: Box::new(c), body: Box::new(b), label, is_do_while },
                            leave_loop(st, st2),
                        ),
                    ),
                },
            }
        },
        Statement::For { init, condition, increment, body, label } => {
            let scoped = !(*init matches ForInit::InitExp(None));
            if scoped && layer_full(st) {
                Err(ErrorKind::Semantic)
            } else {
                let st0 = if scoped {
                    enter_block(st)
                } else {
                    st
                };
                let init_res: Result<(ForInit, ResolveState), ErrorKind> = match *init {
                    ForInit::InitDecl(d) => match spec_resolve_var_decl(funcs, st0, d) {
                        Err(k) => Err(k),
                        Ok((d2, st1)) => Ok((ForInit::InitDecl(d2), st1)),
                    },
                    ForInit::InitExp(x) => match spec_resolve_opt(funcs, st0, x) {
                        Err(k) => Err(k),
                        Ok(y) => Ok((ForInit::InitExp(y), st0)),
                    },
                };
                match init_res {
                    Err(k) => Err(k),
                    Ok((i2, st1)) => {
                        let st2 = enter_loop(st1, label, true);
                        match spec_resolve_opt(funcs, st2, condition) {
                            Err(k) => Err(k),
                            Ok(c) => match spec_resolve_opt(funcs, st2, increment) {
                                Err(k) => Err(k),
                                Ok(inc) => match spec_resolve_stmt(funcs, st2, *body) {
                                    Err(k) => Err(k),
                                    Ok((b, st3)) => {
                                        let st4 = leave_loop(st1, st3);
                                        Ok(
                                            (
                                                Statement::For {
                                                    init: Box::new(i2),
                                                    condition: c,
                                                    increment: inc,
                                                    body: Box::new(b),
                                                    label,
                                                },
                                                if scoped {
                                                    leave_block(st, st4)
                                                } else {
                                                    st4
                                                },
                                            ),
                                        )
                                    },
                                },
                            },
                        }
                    },
                }
            }
        },
        Statement::Null => Ok((Statement::Null, st)),
    }
}

pub open spec fn spec_resolve_items(
    funcs: Seq<(Name, FunAttr)>,
    st: ResolveState,
    b: Block,
) -> Result<(Block, ResolveState), ErrorKind>
    decreases b,
{
    match b {
        Block::Nil => Ok((Block::Nil, st)),
        Block::Cons(item, rest) => {
            let r: Result<(BlockItem, ResolveState), ErrorKind> = match *item {
                BlockItem::D(Declaration::VariableDeclaration(d)) => match spec_resolve_var_decl(
                    funcs,
                    st,
                    d,
                ) {
                    Err(k) => Err(k),
                    Ok((d2, st1)) => Ok((BlockItem::D(Declaration::VariableDeclaration(d2)), st1)),
                },
                BlockItem::D(Declaration::FunctionDeclaration(_)) => Err(ErrorKind::Semantic),
                BlockItem::S(s) => match spec_resolve_stmt(funcs, st, s) {
                    Err(k) => Err(k),
                    Ok((s2, st1)) => Ok((BlockItem::S(s2), st1)),
                },
            };
            match r {
                Err(k) => Err(k),
                Ok((i2, st1)) => match spec_resolve_items(funcs, st1, *rest) {
                    Err(k) => Err(k),
                    Ok((r2, st2)) => Ok((Block::Cons(Box::new(i2), Box::new(r2)), st2)),
                },
            }
        },
    }
}

/// Parameters renamed `function::name::layer` and brought into scope.
pub open spec fn spec_resolve_params(st: ResolveState, p: NameList) -> (NameList, ResolveState)
    decreases p,
{
    match p {
        NameList::Nil => (NameList::Nil, st),
        NameList::Cons(n, rest) => {
            let (n2, st1) = match n {
                Name::Source(id) => {
                    let u = Name::Local { function: st.function, name: id, layer: st.layer as u64 };
                    (
                        u,
                        push_scope(
                            st,
                            ScopeEntry { name: id, layer: st.layer as u64, is_extern: false, unique_name: u },
                        ),
                    )
                },
                _ => (n, st),
            };
            let (r2, st2) = spec_resolve_params(st1, *rest);
            (NameList::Cons(n2, Box::new(r2)), st2)
        },
    }
}

/// A function declaration: its parameters are renamed in the function's
/// outermost scope and its body is resolved one block deeper.
pub open spec fn spec_resolve_function(
    funcs: Seq<(Name, FunAttr)>,
    st: ResolveState,
    f: FunctionDeclaration,
) -> Result<(FunctionDeclaration, ResolveState), ErrorKind> {
    let (params, st1) = spec_resolve_params(st, f.params);
    let body: Result<(Option<Box<Block>>, ResolveState), ErrorKind> = match f.body {
        None => Ok((None, st1)),
        Some(b) => if layer_full(st1) {
            Err(ErrorKind::Semantic)
        } else {
            match spec_resolve_items(funcs, enter_block(st1), *b) {
                Err(k) => Err(k),
                Ok((b2, st2)) => Ok((Some(Box::new(b2)), leave_block(st1, st2))),
            }
        },
    };
    match body {
        Err(k) => Err(k),
        Ok((b, st2)) => Ok(
            (
                FunctionDeclaration {
                    name: f.name,
                    params,
                    body: b,
                    storage_class: f.storage_class,
                    func_type: f.func_type,
                },
                ResolveState { scopes: pop_layer(st2.scopes, st.layer), ..st2 },
            ),
        ),
    }
}


// ---------------------------------------------------------------------------
// The resolver.
// ---------------------------------------------------------------------------

/// Whether leaving a nested construct kept the depth, the loops and the function.
pub open spec fn frame(a: ResolveState, b: ResolveState) -> bool {
    a.layer == b.layer && a.loops == b.loops && a.function == b.function
}

fn semantic(msg: &str) -> (e: CompilerError)
    ensures
        e.kind() == ErrorKind::Semantic,
{
    CompilerError::with_message(ErrorKind::Semantic, msg)
}

/// Renames every variable of one function to a name that is unique in the
/// program, checks that names are declared before use, and gives `break`
/// and `continue` the label of their loop.
pub struct VariableResolutionVisitor {
    layer: u64,
    function: usize,
    variable_scopes: Vec<ScopeEntry>,
    loop_labels: Vec<(u64, bool)>,
    global_variables_map: Vec<(Name, StaticAttr)>,
}

impl View for VariableResolutionVisitor {
    type V = ResolveState;

    closed spec fn view(&self) -> ResolveState {
        ResolveState {
            scopes: self.variable_scopes@,
            layer: self.layer as int,
            loops: self.loop_labels@,
            function: self.function,
            globals: self.global_variables_map@,
        }
    }
}

pub fn zero_of(t: Type) -> (c: Const)
    ensures
        c == spec_zero_of(t),
{
    match t {
        Type::Long => Const::ConstLong(0),
        Type::UInt => Const::ConstUInt(0),
        Type::ULong => Const::ConstULong(0),
        _ => Const::ConstInt(0),
    }
}

fn static_init(init: &Option<Box<ASTNode>>) -> (r: Option<InitialValue>)
    ensures
        r == spec_static_init(*init),
{
    match init {
        None => Some(InitialValue::Initial(Const::ConstInt(0))),
        Some(e) => match &e.kind {
            Expression::Constant(c) => Some(InitialValue::Initial(*c)),
            _ => None,
        },
    }
}

fn same_length(a: &Arguments, t: &TypeList) -> (b: bool)
    ensures
        b == (args_len(*a) == type_list_len(*t)),
    decreases a,
{
    match (a, t) {
        (Arguments::Nil, TypeList::Nil) => true,
        (Arguments::Cons(_, ra), TypeList::Cons(_, rt)) => same_length(ra, rt),
        _ => false,
    }
}

impl VariableResolutionVisitor {
    /// A resolver for the function named `function`, starting from the objects
    /// of static storage duration declared so far.
    pub fn new(function: usize, global_variables_map: Vec<(Name, StaticAttr)>) -> (v: Self)
        ensures
            v@ == (ResolveState {
                scopes: Seq::empty(),
                layer: 0,
                loops: Seq::empty(),
                function,
                globals: global_variables_map@,
            }),
    {
        VariableResolutionVisitor {
            layer: 0,
            function,
            variable_scopes: Vec::new(),
            loop_labels: Vec::new(),
            global_variables_map,
        }
    }

    /// The objects of static storage duration, with those this resolver added.
    pub fn into_globals(self) -> (g: Vec<(Name, StaticAttr)>)
        ensures
            g@ == self@.globals,
    {
        self.global_variables_map
    }

    fn top_is_current_layer(&self) -> (b: bool)
        ensures
            b == (self@.scopes.len() > 0 && self@.scopes.last().layer == self@.layer),
    {
        let n = self.variable_scopes.len();
        n > 0 && self.variable_scopes[n - 1].layer == self.layer
    }

    /// Removes the variables of the current block depth.
    fn pop_stack(&mut self)
        ensures
            final(self)@ == (ResolveState { scopes: pop_layer(old(self)@.scopes, old(self)@.layer), ..old(self)@ }),
    {
        while self.top_is_current_layer()
            invariant
                pop_layer(self@.scopes, self@.layer) == pop_layer(old(self)@.scopes, old(self)@.layer),
                self@.layer == old(self)@.layer,
                self@.loops == old(self)@.loops,
                self@.function == old(self)@.function,
                self@.globals == old(self)@.globals,
            decreases self@.scopes.len(),
        {
            self.variable_scopes.pop();
        }
    }

    fn innermost(&self, id: usize) -> (r: Option<ScopeEntry>)
        ensures
            r == last_entry(self@.scopes, id),
    {
        let mut i = self.variable_scopes.len();
        while i > 0
            invariant
                i <= self.variable_scopes.len(),
                last_entry(self@.scopes, id) == last_entry_from(self@.scopes, id, i as int),
            decreases i,
        {
            if self.variable_scopes[i - 1].name == id {
                return Some(self.variable_scopes[i - 1]);
            }
            i -= 1;
        }
        None
    }

    fn resolve_variable(&self, n: Name) -> (r: Option<Name>)
        ensures
            r == spec_lookup(self@, n),
    {
        let in_scope = match n {
            Name::Source(id) => self.innermost(id),
            _ => None,
        };
        match in_scope {
            Some(e) => if e.is_extern {
                Some(n)
            } else {
                Some(e.unique_name)
            },
            None => if assoc_find(&self.global_variables_map, n).is_some() {
                Some(n)
            } else {
                None
            },
        }
    }

    #[verifier::rlimit(30)]
    fn resolve_expr(&self, funcs: &Vec<(Name, FunAttr)>, e: ASTNode) -> (r: Result<ASTNode, CompilerError>)
        ensures
            plain_outcome(r, spec_resolve_expr(funcs@, self@, e)),
        decreases e,
    {
        let t = e.type_;
        match e.kind {
            Expression::Constant(c) => Ok(ASTNode { kind: Expression::Constant(c), type_: t }),
            Expression::Variable(n) => match self.resolve_variable(n) {
                Some(m) => Ok(ASTNode { kind: Expression::Variable(m), type_: t }),
                None => Err(semantic("Undefined variable")),
            },
            Expression::Unary(op, x) => {
                let y = self.resolve_expr(funcs, *x)?;
                Ok(ASTNode { kind: Expression::Unary(op, Box::new(y)), type_: t })
            },
            Expression::Binary { op, left, right } => {
                let l = self.resolve_expr(funcs, *left)?;
                let r = self.resolve_expr(funcs, *right)?;
                Ok(ASTNode { kind: Expression::Binary { op, left: Box::new(l), right: Box::new(r) }, type_: t })
            },
            Expression::Assignment { left, right } => {
                let l = self.resolve_expr(funcs, *left)?;
                let r = self.resolve_expr(funcs, *right)?;
                Ok(ASTNode { kind: Expression::Assignment { left: Box::new(l), right: Box::new(r) }, type_: t })
            },
            Expression::Condition { condition, if_true, if_false } => {
                let c = self.resolve_expr(funcs, *condition)?;
                let a = self.resolve_expr(funcs, *if_true)?;
                let b = self.resolve_expr(funcs, *if_false)?;
                Ok(
                    ASTNode {
                        kind: Expression::Condition {
                            condition: Box::new(c),
                            if_true: Box::new(a),
                            if_false: Box::new(b),
                        },
                        type_: t,
                    },
                )
            },
            Expression::FunctionCall(f, args) => match assoc_find(funcs, f) {
                None => Err(semantic("Undefined function")),
                Some(i) => {
                    if !same_length(&args, &funcs[i].1.func_type.params) {
                        return Err(semantic("Wrong number of arguments"));
                    }
                    let a = self.resolve_args(funcs, *args)?;
                    Ok(ASTNode { kind: Expression::FunctionCall(f, Box::new(a)), type_: t })
                },
            },
            Expression::Prefix(op, x) => {
                let y = self.resolve_expr(funcs, *x)?;
                Ok(ASTNode { kind: Expression::Prefix(op, Box::new(y)), type_: t })
            },
            Expression::Postfix(op, x) => {
                let y = self.resolve_expr(funcs, *x)?;
                Ok(ASTNode { kind: Expression::Postfix(op, Box::new(y)), type_: t })
            },
            Expression::Cast(ty, x) => {
                let y = self.resolve_expr(funcs, *x)?;
                Ok(ASTNode { kind: Expression::Cast(ty, Box::new(y)), type_: t })
            },
        }
    }

    fn resolve_args(&self, funcs: &Vec<(Name, FunAttr)>, a: Arguments) -> (r: Result<Arguments, CompilerError>)
        ensures
            plain_outcome(r, spec_resolve_args(funcs@, self@, a)),
        decreases a,
    {
        match a {
            Arguments::Nil => Ok(Arguments::Nil),
            Arguments::Cons(x, rest) => {
                let y = self.resolve_expr(funcs, *x)?;
                let r = self.resolve_args(funcs, *rest)?;
                Ok(Arguments::Cons(Box::new(y), Box::new(r)))
            },
        }
    }

    fn resolve_opt(&self, funcs: &Vec<(Name, FunAttr)>, e: Option<Box<ASTNode>>) -> (r: Result<
        Option<Box<ASTNode>>,
        CompilerError,
    >)
        ensures
            plain_outcome(r, spec_resolve_opt(funcs@, self@, e)),
    {
        match e {
            None => Ok(None),
            Some(x) => {
                let y = self.resolve_expr(funcs, *x)?;
                Ok(Some(Box::new(y)))
            },
        }
    }

    #[verifier::rlimit(30)]
    fn resolve_var_decl(&mut self, funcs: &Vec<(Name, FunAttr)>, d: VariableDeclaration) -> (r:
        Result<VariableDeclaration, CompilerError>)
        ensures
            step_outcome(r, spec_resolve_var_decl(funcs@, old(self)@, d), final(self)@),
            r is Ok ==> frame(old(self)@, final(self)@),
            r is Err ==> final(self)@ == old(self)@,
    {
        let id = match d.name {
            Name::Source(id) => id,
            _ => return Err(semantic("Unexpected name")),
        };
        if assoc_find(funcs, d.name).is_some() {
            return Err(semantic("Function redeclared as variable"));
        }
        match self.innermost(id) {
            Some(prev) => if prev.layer == self.layer {
                return Err(semantic("Duplicate variable declaration"));
            },
            None => {},
        }
        let layer = self.layer;
        match d.storage_class {
            Some(StorageClass::Extern) => {
                if d.init.is_some() {
                    return Err(semantic("Extern variable cannot be initialized"));
                }
                let entry = ScopeEntry { name: id, layer, is_extern: true, unique_name: d.name };
                match assoc_find(&self.global_variables_map, d.name) {
                    Some(i) => {
                        if self.global_variables_map[i].1.type_ != d.var_type {
                            return Err(semantic("Extern variable redeclared with incompatible type"));
                        }
                    },
                    None => {
                        self.global_variables_map.push(
                            (
                                d.name,
                                StaticAttr {
                                    init: InitialValue::NoInitializer,
                                    global: true,
                                    type_: d.var_type,
                                },
                            ),
                        );
                    },
                }
                self.variable_scopes.push(entry);
                Ok(d)
            },
            Some(StorageClass::Static) => {
                let iv = match static_init(&d.init) {
                    Some(iv) => iv,
                    None => return Err(semantic("Non-constant initializer of static variable")),
                };
                let u = Name::StaticLocal { function: self.function, name: id };
                assoc_put(
                    &mut self.global_variables_map,
                    u,
                    StaticAttr { init: iv, global: false, type_: d.var_type },
                );
                self.variable_scopes.push(
                    ScopeEntry { name: id, layer, is_extern: false, unique_name: u },
                );
                Ok(
                    VariableDeclaration {
                        name: u,
                        init: d.init,
                        storage_class: d.storage_class,
                        var_type: d.var_type,
                    },
                )
            },
            None => {
                let u = Name::Local { function: self.function, name: id, layer };
                self.variable_scopes.push(
                    ScopeEntry { name: id, layer, is_extern: false, unique_name: u },
                );
                match d.init {
                    None => Ok(
                        VariableDeclaration {
                            name: u,
                            init: None,
                            storage_class: d.storage_class,
                            var_type: d.var_type,
                        },
                    ),
                    Some(x) => {
                        let y = match self.resolve_expr(funcs, *x) {
                            Ok(y) => y,
                            Err(e) => {
                                self.variable_scopes.pop();
                                proof {
                                    assert(self.variable_scopes@ =~= old(self).variable_scopes@);
                                }
                                return Err(e);
                            },
                        };
                        Ok(
                            VariableDeclaration {
                                name: u,
                                init: Some(Box::new(y)),
                                storage_class: d.storage_class,
                                var_type: d.var_type,
                            },
                        )
                    },
                }
            },
        }
    }

    #[verifier::rlimit(30)]
    fn resolve_statement(&mut self, funcs: &Vec<(Name, FunAttr)>, s: Statement) -> (r: Result<
        Statement,
        CompilerError,
    >)
        ensures
            step_outcome(r, spec_resolve_stmt(funcs@, old(self)@, s), final(self)@),
            r is Ok ==> frame(old(self)@, final(self)@),
        decreases s, 0nat,
    {
        match s {
            Statement::Return(e) => {
                let y = self.resolve_expr(funcs, *e)?;
                Ok(Statement::Return(Box::new(y)))
            },
            Statement::Expression(e) => {
                let y = self.resolve_expr(funcs, *e)?;
                Ok(Statement::Expression(Box::new(y)))
            },
            Statement::If { condition, if_true, if_false } => {
                let c = self.resolve_expr(funcs, *condition)?;
                let t = self.resolve_statement(funcs, *if_true)?;
                match if_false {
                    None => Ok(Statement::If { condition: Box::new(c), if_true: Box::new(t), if_false: None }),
                    Some(f) => {
                        let f2 = self.resolve_statement(funcs, *f)?;
                        Ok(
                            Statement::If {
                                condition: Box::new(c),
                                if_true: Box::new(t),
                                if_false: Some(Box::new(f2)),
                            },
                        )
                    },
                }
            },
            Statement::Compound(b) => self.resolve_compound(funcs, *b),
            Statement::Break(_) => {
                let n = self.loop_labels.len();
                if n == 0 {
                    return Err(semantic("Break outside loop"));
                }
                Ok(Statement::Break(self.loop_labels[n - 1].0))
            },
            Statement::Continue { .. } => {
                let n = self.loop_labels.len();
                if n == 0 {
                    return Err(semantic("Continue outside loop"));
                }
                let top = self.loop_labels[n - 1];
                Ok(Statement::Continue { label: top.0, is_for: top.1 })
            },
            Statement::While { condition, body, label, is_do_while } => self.resolve_while(
                funcs,
                *condition,
                *body,
                label,
                is_do_while,
            ),
            Statement::For { init, condition, increment, body, label } => self.resolve_for(
                funcs,
                *init,
                condition,
                increment,
                *body,
                label,
            ),
            Statement::Null => Ok(Statement::Null),
        }
    }


    fn resolve_compound(&mut self, funcs: &Vec<(Name, FunAttr)>, b: Block) -> (r: Result<
        Statement,
        CompilerError,
    >)
        ensures
            step_outcome(
                r,
                spec_resolve_stmt(funcs@, old(self)@, Statement::Compound(Box::new(b))),
                final(self)@,
            ),
            r is Ok ==> frame(old(self)@, final(self)@),
        decreases b, 1nat,
    {
        if self.layer == u64::MAX {
            return Err(semantic("Blocks nested too deeply"));
        }
        let saved = self.layer;
        self.layer = saved + 1;
        let b2 = self.resolve_items(funcs, b)?;
        self.pop_stack();
        self.layer = saved;
        Ok(Statement::Compound(Box::new(b2)))
    }

    fn resolve_while(
        &mut self,
        funcs: &Vec<(Name, FunAttr)>,
        condition: ASTNode,
        body: Statement,
        label: u64,
        is_do_while: bool,
    ) -> (r: Result<Statement, CompilerError>)
        ensures
            step_outcome(
                r,
                spec_resolve_stmt(
                    funcs@,
                    old(self)@,
                    Statement::While { condition: Box::new(condition), body: Box::new(body), label, is_do_while },
                ),
                final(self)@,
            ),
            r is Ok ==> frame(old(self)@, final(self)@),
        decreases body, 1nat,
    {
        let ghost st = self@;
        self.loop_labels.push((label, false));
        let c = self.resolve_expr(funcs, condition)?;
        let b = self.resolve_statement(funcs, body)?;
        let ghost st2 = self@;
        self.loop_labels.pop();
        assert(self@.loops =~= st.loops);
        assert(self@ == leave_loop(st, st2));
        Ok(Statement::While { condition: Box::new(c), body: Box::new(b), label, is_do_while })
    }

    #[verifier::rlimit(30)]
    fn resolve_for(
        &mut self,
        funcs: &Vec<(Name, FunAttr)>,
        init: ForInit,
        condition: Option<Box<ASTNode>>,
        increment: Option<Box<ASTNode>>,
        body: Statement,
        label: u64,
    ) -> (r: Result<Statement, CompilerError>)
        ensures
            step_outcome(
                r,
                spec_resolve_stmt(
                    funcs@,
                    old(self)@,
                    Statement::For { init: Box::new(init), condition, increment, body: Box::new(body), label },
                ),
                final(self)@,
            ),
            r is Ok ==> frame(old(self)@, final(self)@),
        decreases body, 1nat,
    {
        let ghost st = self@;
        let scoped = match &init {
            ForInit::InitExp(None) => false,
            _ => true,
        };
        if scoped && self.layer == u64::MAX {
            return Err(semantic("Blocks nested too deeply"));
        }
        let saved = self.layer;
        if scoped {
            self.layer = saved + 1;
        }
        let i2 = match init {
            ForInit::InitDecl(d) => ForInit::InitDecl(self.resolve_var_decl(funcs, d)?),
            ForInit::InitExp(x) => ForInit::InitExp(self.resolve_opt(funcs, x)?),
        };
        let ghost st1 = self@;
        self.loop_labels.push((label, true));
        let c = self.resolve_opt(funcs, condition)?;
        let inc = self.resolve_opt(funcs, increment)?;
        let b = self.resolve_statement(funcs, body)?;
        let ghost st3 = self@;
        self.loop_labels.pop();
        assert(self@.loops =~= st1.loops);
        assert(self@ == leave_loop(st1, st3));
        if scoped {
            self.pop_stack();
            self.layer = saved;
        }
        Ok(Statement::For { init: Box::new(i2), condition: c, increment: inc, body: Box::new(b), label })
    }

    fn resolve_items(&mut self, funcs: &Vec<(Name, FunAttr)>, b: Block) -> (r: Result<Block, CompilerError>)
        ensures
            step_outcome(r, spec_resolve_items(funcs@, old(self)@, b), final(self)@),
            r is Ok ==> frame(old(self)@, final(self)@),
        decreases b, 0nat,
    {
        match b {
            Block::Nil => Ok(Block::Nil),
            Block::Cons(item, rest) => {
                let i2 = match *item {
                    BlockItem::D(Declaration::VariableDeclaration(d)) => BlockItem::D(
                        Declaration::VariableDeclaration(self.resolve_var_decl(funcs, d)?),
                    ),
                    BlockItem::D(Declaration::FunctionDeclaration(_)) => {
                        return Err(semantic("Function declared inside a block"));
                    },
                    BlockItem::S(s) => BlockItem::S(self.resolve_statement(funcs, s)?),
                };
                let r2 = self.resolve_items(funcs, *rest)?;
                Ok(Block::Cons(Box::new(i2), Box::new(r2)))
            },
        }
    }

    fn resolve_params(&mut self, p: NameList) -> (r: NameList)
        ensures
            (r, final(self)@) == spec_resolve_params(old(self)@, p),
            frame(old(self)@, final(self)@),
        decreases p,
    {
        match p {
            NameList::Nil => NameList::Nil,
            NameList::Cons(n, rest) => {
                let n2 = match n {
                    Name::Source(id) => {
                        let u = Name::Local { function: self.function, name: id, layer: self.layer };
                        self.variable_scopes.push(
                            ScopeEntry { name: id, layer: self.layer, is_extern: false, unique_name: u },
                        );
                        u
                    },
                    _ => n,
                };
                let r2 = self.resolve_params(*rest);
                NameList::Cons(n2, Box::new(r2))
            },
        }
    }

    /// Resolves a function declaration: parameters, then the body.
    pub fn resolve_function(&mut self, funcs: &Vec<(Name, FunAttr)>, f: FunctionDeclaration) -> (r:
        Result<FunctionDeclaration, CompilerError>)
        ensures
            step_outcome(r, spec_resolve_function(funcs@, old(self)@, f), final(self)@),
    {
        let saved = self.layer;
        let params = self.resolve_params(f.params);
        let body = match f.body {
            None => None,
            Some(b) => {
                if self.layer == u64::MAX {
                    return Err(semantic("Blocks nested too deeply"));
                }
                self.layer = saved + 1;
                let b2 = self.resolve_items(funcs, *b)?;
                self.pop_stack();
                self.layer = saved;
                Some(Box::new(b2))
            },
        };
        self.pop_stack();
        Ok(
            FunctionDeclaration {
                name: f.name,
                params,
                body,
                storage_class: f.storage_class,
                func_type: f.func_type,
            },
        )
    }
}

} // verus!

verus! {

// ---------------------------------------------------------------------------
// Laws of resolution.
// ---------------------------------------------------------------------------

/// Every variable in scope was declared at the current depth or outside it.
pub open spec fn scopes_within(st: ResolveState) -> bool {
    &&& 0 <= st.layer <= u64::MAX
    &&& forall|k: int| 0 <= k < st.scopes.len() ==> #[trigger] st.scopes[k].layer <= st.layer
}

/// `after` is `before` with entries of depth `layer` pushed on top.
pub open spec fn pushed_at(before: Seq<ScopeEntry>, after: Seq<ScopeEntry>, layer: int) -> bool {
    &&& before.len() <= after.len()
    &&& forall|k: int| 0 <= k < before.len() ==> #[trigger] after[k] == before[k]
    &&& forall|k: int| before.len() <= k < after.len() ==> #[trigger] after[k].layer == layer
}

pub proof fn lemma_pop_layer_pushed(before: Seq<ScopeEntry>, after: Seq<ScopeEntry>, layer: int)
    requires
        pushed_at(before, after, layer),
        forall|k: int| 0 <= k < before.len() ==> #[trigger] before[k].layer < layer,
    ensures
        pop_layer(after, layer) == before,
    decreases after.len(),
{
    if after.len() > before.len() {
        assert(after.drop_last().len() < after.len());
        lemma_pop_layer_pushed(before, after.drop_last(), layer);
    } else {
        assert(after =~= before);
        if before.len() > 0 {
            assert(before.last().layer < layer);
        }
    }
}

proof fn lemma_var_decl_scopes(funcs: Seq<(Name, FunAttr)>, st: ResolveState, d: VariableDeclaration)
    requires
        scopes_within(st),
    ensures
        spec_resolve_var_decl(funcs, st, d) matches Ok((_, st2)) ==> frame(st, st2)
            && pushed_at(st.scopes, st2.scopes, st.layer),
{
}

/// Resolving a statement leaves the variables in scope, the depth and the
/// enclosing loops as they were: the variables a statement declares are
/// forgotten when the block that declares them ends.
pub proof fn lemma_resolve_stmt_scopes(funcs: Seq<(Name, FunAttr)>, st: ResolveState, s: Statement)
    requires
        scopes_within(st),
    ensures
        spec_resolve_stmt(funcs, st, s) matches Ok((_, st2)) ==> frame(st, st2) && st2.scopes
            == st.scopes,
    decreases s, 1nat,
{
    match s {
        Statement::If { condition, if_true, if_false } => {
            if let Ok(_) = spec_resolve_expr(funcs, st, *condition) {
                lemma_resolve_stmt_scopes(funcs, st, *if_true);
                if let Ok((_, st1)) = spec_resolve_stmt(funcs, st, *if_true) {
                    if let Some(f) = if_false {
                        lemma_resolve_stmt_scopes(funcs, st1, *f);
                    }
                }
            }
        },
        Statement::Compound(b) => {
            if !layer_full(st) {
                let inner = enter_block(st);
                lemma_resolve_items_scopes(funcs, inner, *b);
                if let Ok((_, st2)) = spec_resolve_items(funcs, inner, *b) {
                    lemma_pop_layer_pushed(st.scopes, st2.scopes, st.layer + 1);
                }
            }
        },
        Statement::While { condition, body, label, .. } => {
            let st1 = enter_loop(st, label, false);
            lemma_resolve_stmt_scopes(funcs, st1, *body);
        },
        Statement::For { .. } => {
            lemma_resolve_for_scopes(funcs, st, s);
        },
        _ => {},
    }
}

#[verifier::rlimit(30)]
proof fn lemma_resolve_for_scopes(funcs: Seq<(Name, FunAttr)>, st: ResolveState, s: Statement)
    requires
        scopes_within(st),
        s is For,
    ensures
        spec_resolve_stmt(funcs, st, s) matches Ok((_, st2)) ==> frame(st, st2) && st2.scopes
            == st.scopes,
    decreases s, 0nat,
{
    match s {
        Statement::For { init, condition, increment, body, label } => {
            let scoped = !(*init matches ForInit::InitExp(None));
            if !(scoped && layer_full(st)) {
                let st0 = if scoped {
                    enter_block(st)
                } else {
                    st
                };
                let init_res: Result<(ForInit, ResolveState), ErrorKind> = match *init {
                    ForInit::InitDecl(d) => match spec_resolve_var_decl(funcs, st0, d) {
                        Err(k) => Err(k),
                        Ok((d2, st1)) => Ok((ForInit::InitDecl(d2), st1)),
                    },
                    ForInit::InitExp(x) => match spec_resolve_opt(funcs, st0, x) {
                        Err(k) => Err(k),
                        Ok(y) => Ok((ForInit::InitExp(y), st0)),
                    },
                };
                if let ForInit::InitDecl(d) = *init {
                    lemma_var_decl_scopes(funcs, st0, d);
                }
                if let Ok((_, st1)) = init_res {
                    assert(pushed_at(st.scopes, st1.scopes, st0.layer));
                    let st2 = enter_loop(st1, label, true);
                    lemma_resolve_stmt_scopes(funcs, st2, *body);
                    if let Ok((_, st3)) = spec_resolve_stmt(funcs, st2, *body) {
                        if scoped {
                            lemma_pop_layer_pushed(st.scopes, st3.scopes, st.layer + 1);
                        } else {
                            assert(st1.scopes =~= st.scopes);
                        }
                    }
                }
            }
        },
        _ => {},
    }
}

/// Resolving the items of a block only pushes the variables the block
/// declares, at the block's depth, and keeps the depth and the loops.
#[verifier::rlimit(30)]
pub proof fn lemma_resolve_items_scopes(funcs: Seq<(Name, FunAttr)>, st: ResolveState, b: Block)
    requires
        scopes_within(st),
    ensures
        spec_resolve_items(funcs, st, b) matches Ok((_, st2)) ==> frame(st, st2) && pushed_at(
            st.scopes,
            st2.scopes,
            st.layer,
        ),
    decreases b, 1nat,
{
    match b {
        Block::Nil => {},
        Block::Cons(item, rest) => {
            let r: Result<(BlockItem, ResolveState), ErrorKind> = match *item {
                BlockItem::D(Declaration::VariableDeclaration(d)) => match spec_resolve_var_decl(
                    funcs,
                    st,
                    d,
                ) {
                    Err(k) => Err(k),
                    Ok((d2, st1)) => Ok((BlockItem::D(Declaration::VariableDeclaration(d2)), st1)),
                },
                BlockItem::D(Declaration::FunctionDeclaration(_)) => Err(ErrorKind::Semantic),
                BlockItem::S(s) => match spec_resolve_stmt(funcs, st, s) {
                    Err(k) => Err(k),
                    Ok((s2, st1)) => Ok((BlockItem::S(s2), st1)),
                },
            };
            match *item {
                BlockItem::D(Declaration::VariableDeclaration(d)) => lemma_var_decl_scopes(funcs, st, d),
                BlockItem::D(Declaration::FunctionDeclaration(_)) => {},
                BlockItem::S(s) => lemma_resolve_stmt_scopes(funcs, st, s),
            }
            if let Ok((_, st1)) = r {
                assert(pushed_at(st.scopes, st1.scopes, st.layer));
                assert(scopes_within(st1));
                lemma_resolve_items_scopes(funcs, st1, *rest);
            }
        },
    }
}


proof fn lemma_params_scopes(st: ResolveState, p: NameList)
    requires
        scopes_within(st),
    ensures
        frame(st, spec_resolve_params(st, p).1),
        pushed_at(st.scopes, spec_resolve_params(st, p).1.scopes, st.layer),
    decreases p,
{
    match p {
        NameList::Nil => {},
        NameList::Cons(n, rest) => {
            let (n2, st1) = match n {
                Name::Source(id) => {
                    let u = Name::Local { function: st.function, name: id, layer: st.layer as u64 };
                    (
                        u,
                        push_scope(
                            st,
                            ScopeEntry { name: id, layer: st.layer as u64, is_extern: false, unique_name: u },
                        ),
                    )
                },
                _ => (n, st),
            };
            lemma_params_scopes(st1, *rest);
            let st2 = spec_resolve_params(st1, *rest).1;
            assert(pushed_at(st.scopes, st2.scopes, st.layer));
        },
    }
}

/// Resolving a function from an empty scope leaves the scope empty again:
/// its parameters and the variables of its body go out of scope at its end.
pub proof fn lemma_resolve_function_scopes(
    funcs: Seq<(Name, FunAttr)>,
    globals: Seq<(Name, StaticAttr)>,
    function: usize,
    f: FunctionDeclaration,
)
    ensures
        spec_resolve_function(
            funcs,
            ResolveState { scopes: Seq::empty(), layer: 0, loops: Seq::empty(), function, globals },
            f,
        ) matches Ok((_, st2)) ==> st2.scopes.len() == 0 && st2.layer == 0 && st2.loops.len() == 0,
{
    let st = ResolveState { scopes: Seq::empty(), layer: 0, loops: Seq::empty(), function, globals };
    lemma_params_scopes(st, f.params);
    let st1 = spec_resolve_params(st, f.params).1;
    let after_body: ResolveState = match f.body {
        None => st1,
        Some(b) => {
            let inner = enter_block(st1);
            lemma_resolve_items_scopes(funcs, inner, *b);
            match spec_resolve_items(funcs, inner, *b) {
                Ok((_, st2)) => {
                    lemma_pop_layer_pushed(st1.scopes, st2.scopes, 1);
                    leave_block(st1, st2)
                },
                Err(_) => st1,
            }
        },
    };
    lemma_pop_layer_pushed(Seq::empty(), after_body.scopes, 0);
}


/// Every `break` and `continue` of the statement carries the label of its
/// innermost enclosing loop, `enclosing` being the loops around it.
pub open spec fn jumps_to_innermost(s: Statement, enclosing: Seq<(u64, bool)>) -> bool
    decreases s,
{
    match s {
        Statement::Break(l) => enclosing.len() > 0 && l == enclosing.last().0,
        Statement::Continue { label, is_for } => enclosing.len() > 0 && label == enclosing.last().0
            && is_for == enclosing.last().1,
        Statement::If { if_true, if_false, .. } => jumps_to_innermost(*if_true, enclosing) && match if_false {
            None => true,
            Some(f) => jumps_to_innermost(*f, enclosing),
        },
        Statement::Compound(b) => items_jump_to_innermost(*b, enclosing),
        Statement::While { body, label, .. } => jumps_to_innermost(*body, enclosing.push((label, false))),
        Statement::For { body, label, .. } => jumps_to_innermost(*body, enclosing.push((label, true))),
        _ => true,
    }
}

pub open spec fn items_jump_to_innermost(b: Block, enclosing: Seq<(u64, bool)>) -> bool
    decreases b,
{
    match b {
        Block::Nil => true,
        Block::Cons(item, rest) => (match *item {
            BlockItem::S(s) => jumps_to_innermost(s, enclosing),
            _ => true,
        }) && items_jump_to_innermost(*rest, enclosing),
    }
}

/// After resolution every `break` and `continue` carries the label of its
/// innermost enclosing loop (and `continue` knows whether that loop is a
/// `for` loop).
pub proof fn lemma_resolve_stmt_jumps(funcs: Seq<(Name, FunAttr)>, st: ResolveState, s: Statement)
    requires
        scopes_within(st),
    ensures
        spec_resolve_stmt(funcs, st, s) matches Ok((s2, _)) ==> jumps_to_innermost(s2, st.loops),
    decreases s, 1nat,
{
    match s {
        Statement::If { condition, if_true, if_false } => {
            lemma_resolve_stmt_jumps(funcs, st, *if_true);
            lemma_resolve_stmt_scopes(funcs, st, *if_true);
            if let Ok((_, st1)) = spec_resolve_stmt(funcs, st, *if_true) {
                if let Some(f) = if_false {
                    lemma_resolve_stmt_jumps(funcs, st1, *f);
                }
            }
        },
        Statement::Compound(b) => {
            if !layer_full(st) {
                lemma_resolve_items_jumps(funcs, enter_block(st), *b);
            }
        },
        Statement::While { condition, body, label, .. } => {
            lemma_resolve_stmt_jumps(funcs, enter_loop(st, label, false), *body);
        },
        Statement::For { .. } => {
            lemma_resolve_for_jumps(funcs, st, s);
        },
        _ => {},
    }
}

#[verifier::rlimit(30)]
proof fn lemma_resolve_for_jumps(funcs: Seq<(Name, FunAttr)>, st: ResolveState, s: Statement)
    requires
        scopes_within(st),
        s is For,
    ensures
        spec_resolve_stmt(funcs, st, s) matches Ok((s2, _)) ==> jumps_to_innermost(s2, st.loops),
    decreases s, 0nat,
{
    match s {
        Statement::For { init, condition, increment, body, label } => {
            let scoped = !(*init matches ForInit::InitExp(None));
            if !(scoped && layer_full(st)) {
                let st0 = if scoped {
                    enter_block(st)
                } else {
                    st
                };
                let init_res: Result<(ForInit, ResolveState), ErrorKind> = match *init {
                    ForInit::InitDecl(d) => match spec_resolve_var_decl(funcs, st0, d) {
                        Err(k) => Err(k),
                        Ok((d2, st1)) => Ok((ForInit::InitDecl(d2), st1)),
                    },
                    ForInit::InitExp(x) => match spec_resolve_opt(funcs, st0, x) {
                        Err(k) => Err(k),
                        Ok(y) => Ok((ForInit::InitExp(y), st0)),
                    },
                };
                if let ForInit::InitDecl(d) = *init {
                    lemma_var_decl_scopes(funcs, st0, d);
                }
                if let Ok((_, st1)) = init_res {
                    lemma_resolve_stmt_jumps(funcs, enter_loop(st1, label, true), *body);
                }
            }
        },
        _ => {},
    }
}

#[verifier::rlimit(30)]
pub proof fn lemma_resolve_items_jumps(funcs: Seq<(Name, FunAttr)>, st: ResolveState, b: Block)
    requires
        scopes_within(st),
    ensures
        spec_resolve_items(funcs, st, b) matches Ok((b2, _)) ==> items_jump_to_innermost(b2, st.loops),
    decreases b, 1nat,
{
    match b {
        Block::Nil => {},
        Block::Cons(item, rest) => {
            let r: Result<(BlockItem, ResolveState), ErrorKind> = match *item {
                BlockItem::D(Declaration::VariableDeclaration(d)) => match spec_resolve_var_decl(
                    funcs,
                    st,
                    d,
                ) {
                    Err(k) => Err(k),
                    Ok((d2, st1)) => Ok((BlockItem::D(Declaration::VariableDeclaration(d2)), st1)),
                },
                BlockItem::D(Declaration::FunctionDeclaration(_)) => Err(ErrorKind::Semantic),
                BlockItem::S(s) => match spec_resolve_stmt(funcs, st, s) {
                    Err(k) => Err(k),
                    Ok((s2, st1)) => Ok((BlockItem::S(s2), st1)),
                },
            };
            match *item {
                BlockItem::D(Declaration::VariableDeclaration(d)) => lemma_var_decl_scopes(funcs, st, d),
                BlockItem::D(Declaration::FunctionDeclaration(_)) => {},
                BlockItem::S(s) => {
                    lemma_resolve_stmt_scopes(funcs, st, s);
                    lemma_resolve_stmt_jumps(funcs, st, s);
                },
            }
            if let Ok((_, st1)) = r {
                assert(scopes_within(st1));
                lemma_resolve_items_jumps(funcs, st1, *rest);
            }
        },
    }
}


/// In a resolved function every `break` and `continue` lies inside a loop
/// and carries the label of its innermost one.
pub proof fn lemma_resolve_function_jumps(
    funcs: Seq<(Name, FunAttr)>,
    globals: Seq<(Name, StaticAttr)>,
    function: usize,
    f: FunctionDeclaration,
)
    ensures
        spec_resolve_function(
            funcs,
            ResolveState { scopes: Seq::empty(), layer: 0, loops: Seq::empty(), function, globals },
            f,
        ) matches Ok((f2, _)) ==> (f2.body matches Some(b) ==> items_jump_to_innermost(*b, Seq::empty())),
{
    let st = ResolveState { scopes: Seq::empty(), layer: 0, loops: Seq::empty(), function, globals };
    lemma_params_scopes(st, f.params);
    let st1 = spec_resolve_params(st, f.params).1;
    if let Some(b) = f.body {
        lemma_resolve_items_jumps(funcs, enter_block(st1), *b);
    }
}


} // verus!
