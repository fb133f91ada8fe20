use crate::asm_ast::{
    asm_defines, asm_jump, asm_jumps_defined, asm_jumps_to, asm_label,
    lemma_assembly_fix_keeps_labels, lemma_tac_list_flow, spec_assembly_fix, spec_tac_list_to_asm, spec_tac_to_asm, tac_jumps_to, AsmAst,
};
use crate::ast::{
    size_of_type, type_size, Declaration, Expression, FunctionDeclaration, Name, Program, VariableDeclaration,
};
use crate::errors::{CompilerError, ErrorKind};
use crate::lexer::{StorageClass, Type};
use crate::resolve::{
    lemma_resolve_function_jumps, spec_resolve_function,
    spec_zero_of, zero_of, ResolveState, VariableResolutionVisitor,
};
use crate::symbols::{
    assoc_contains, assoc_find, assoc_get, assoc_insert, assoc_put, clone_func_type,
    type_lists_equal, FunAttr, InitialValue, StaticAttr,
};
use crate::tac::TACInstruction;
use crate::jump_laws::{jump_target, jumps_placed, lemma_default_return_jumps, lemma_gen_function_jumps};
use crate::tac_generator::{
    spec_add_default_return, spec_gen_function, FunctionBody, GenState, TacVisitor, FRAME_LIMIT,
};
use crate::typecheck::{
    lemma_check_function_jumps, spec_check_function, TypeCheckVisitor,
    TypeState,
};
use vstd::prelude::*;

verus! {

// ---------------------------------------------------------------------------
// The model of the file-scope pass and of code generation for a program.
// ---------------------------------------------------------------------------

/// A function declaration at file scope: it may not reuse the name of a
/// variable, redefine a defined function, make a non-static function
/// static, or change its type. The table then records this declaration; a
/// function stays defined once it has had a body.
pub open spec fn spec_declare_function(
    funcs: Seq<(Name, FunAttr)>,
    globals: Seq<(Name, StaticAttr)>,
    f: FunctionDeclaration,
) -> Result<Seq<(Name, FunAttr)>, ErrorKind> {
    let attr = FunAttr {
        defined: f.body is Some,
        global: f.storage_class != Some(StorageClass::Static),
        func_type: f.func_type,
    };
    if assoc_contains(globals, f.name) {
        Err(ErrorKind::Semantic)
    } else {
        match assoc_get(funcs, f.name) {
            Some(prev) => if prev.defined && f.body is Some {
                Err(ErrorKind::Semantic)
            } else if prev.global && f.storage_class == Some(StorageClass::Static) {
                Err(ErrorKind::Semantic)
            } else if prev.func_type != f.func_type {
                Err(ErrorKind::Semantic)
            } else {
                Ok(assoc_insert(funcs, f.name, FunAttr { defined: prev.defined || f.body is Some, ..attr }))
            },
            None => Ok(assoc_insert(funcs, f.name, attr)),
        }
    }
}

/// A variable declaration at file scope: its initialiser must be a constant;
/// a redeclaration must keep the type and the linkage (an `extern` one
/// takes the earlier linkage), and at most one declaration may initialise.
pub open spec fn spec_declare_variable(
    funcs: Seq<(Name, FunAttr)>,
    globals: Seq<(Name, StaticAttr)>,
    v: VariableDeclaration,
) -> Result<Seq<(Name, StaticAttr)>, ErrorKind> {
    let is_extern = v.storage_class == Some(StorageClass::Extern);
    let initial: Option<InitialValue> = match v.init {
        Some(e) => match e.kind {
            Expression::Constant(c) => Some(InitialValue::Initial(c)),
            _ => None,
        },
        None => if is_extern {
            Some(InitialValue::NoInitializer)
        } else {
            Some(InitialValue::Tentative)
        },
    };
    let global = v.storage_class != Some(StorageClass::Static);
    match initial {
        None => Err(ErrorKind::Semantic),
        Some(iv) => if assoc_contains(funcs, v.name) {
            Err(ErrorKind::Semantic)
        } else {
            match assoc_get(globals, v.name) {
                None => Ok(assoc_insert(globals, v.name, StaticAttr { init: iv, global, type_: v.var_type })),
                Some(prev) => if v.var_type != prev.type_ {
                    Err(ErrorKind::Semantic)
                } else if !is_extern && prev.global != global {
                    Err(ErrorKind::Semantic)
                } else if prev.init is Initial && v.init is Some {
                    Err(ErrorKind::Semantic)
                } else {
                    let g = if is_extern {
                        prev.global
                    } else {
                        global
                    };
                    let init = if prev.init is Initial {
                        prev.init
                    } else if !(iv is Initial) && prev.init is Tentative {
                        InitialValue::Tentative
                    } else {
                        iv
                    };
                    Ok(assoc_insert(globals, v.name, StaticAttr { init, global: g, type_: v.var_type }))
                },
            }
        },
    }
}

/// The file-scope pass over all top-level declarations, in order.
pub open spec fn spec_declare_all(
    p: Program,
    funcs: Seq<(Name, FunAttr)>,
    globals: Seq<(Name, StaticAttr)>,
) -> Result<(Seq<(Name, FunAttr)>, Seq<(Name, StaticAttr)>), ErrorKind>
    decreases p,
{
    match p {
        Program::Nil => Ok((funcs, globals)),
        Program::Cons(d, rest) => {
            let r = match *d {
                Declaration::FunctionDeclaration(f) => match spec_declare_function(funcs, globals, f) {
                    Err(k) => Err(k),
                    Ok(fs) => Ok((fs, globals)),
                },
                Declaration::VariableDeclaration(v) => match spec_declare_variable(funcs, globals, v) {
                    Err(k) => Err(k),
                    Ok(gs) => Ok((funcs, gs)),
                },
            };
            match r {
                Err(k) => Err(k),
                Ok((fs, gs)) => spec_declare_all(*rest, fs, gs),
            }
        },
    }
}

/// The name-table entry of a function's name.
pub open spec fn function_id(n: Name) -> usize {
    match n {
        Name::Source(i) => i,
        Name::Local { function, .. } => function,
        Name::StaticLocal { function, .. } => function,
    }
}

pub open spec fn fresh_resolve_state(function: usize, globals: Seq<(Name, StaticAttr)>) -> ResolveState {
    ResolveState { scopes: Seq::empty(), layer: 0, loops: Seq::empty(), function, globals }
}

pub open spec fn fresh_gen_state(function: usize) -> GenState {
    GenState { instrs: Seq::empty(), offset: 8, vars: Seq::empty(), labels: 0, function }
}

/// One function through resolution, type checking, three-address code and
/// instruction selection; also the objects of static storage duration after it.
pub open spec fn spec_function_asm(
    funcs: Seq<(Name, FunAttr)>,
    globals: Seq<(Name, StaticAttr)>,
    f: FunctionDeclaration,
) -> Result<(Seq<AsmAst>, Seq<(Name, StaticAttr)>), ErrorKind> {
    match spec_resolve_function(funcs, fresh_resolve_state(function_id(f.name), globals), f) {
        Err(k) => Err(k),
        Ok((f1, st1)) => match spec_check_function(
            funcs,
            st1.globals,
            TypeState { locals: Seq::empty(), ret: Type::Void },
            f1,
        ) {
            Err(k) => Err(k),
            Ok((f2, _)) => match spec_gen_function(fresh_gen_state(function_id(f2.name)), f2) {
                Err(k) => Err(k),
                Ok(g) => if g.offset > FRAME_LIMIT {
                    Err(ErrorKind::Semantic)
                } else {
                    Ok((spec_tac_list_to_asm(spec_add_default_return(g.instrs), g.offset), st1.globals))
                },
            },
        },
    }
}

/// The code of every function of the program, in order.
pub open spec fn spec_gen_program(
    p: Program,
    funcs: Seq<(Name, FunAttr)>,
    globals: Seq<(Name, StaticAttr)>,
) -> Result<(Seq<AsmAst>, Seq<(Name, StaticAttr)>), ErrorKind>
    decreases p,
{
    match p {
        Program::Nil => Ok((Seq::empty(), globals)),
        Program::Cons(d, rest) => match *d {
            Declaration::FunctionDeclaration(f) => match spec_function_asm(funcs, globals, f) {
                Err(k) => Err(k),
                Ok((a, g1)) => match spec_gen_program(*rest, funcs, g1) {
                    Err(k) => Err(k),
                    Ok((b, g2)) => Ok((a + b, g2)),
                },
            },
            Declaration::VariableDeclaration(_) => spec_gen_program(*rest, funcs, globals),
        },
    }
}

/// The directives that define one object of static storage duration, of the
/// size of its type, holding its initial value (zero when tentative).
pub open spec fn spec_static_entry(name: Name, attr: StaticAttr) -> Seq<AsmAst> {
    match attr.init {
        InitialValue::Tentative => seq![
            AsmAst::Static {
                size: type_size(attr.type_),
                name,
                global: attr.global,
                init: spec_zero_of(attr.type_),
            },
        ],
        InitialValue::Initial(c) => seq![
            AsmAst::Static { size: type_size(attr.type_), name, global: attr.global, init: c },
        ],
        InitialValue::NoInitializer => Seq::empty(),
    }
}

pub open spec fn spec_static_asm(globals: Seq<(Name, StaticAttr)>) -> Seq<AsmAst>
    decreases globals.len(),
{
    if globals.len() == 0 {
        Seq::empty()
    } else {
        spec_static_asm(globals.drop_last()) + spec_static_entry(globals.last().0, globals.last().1)
    }
}

/// The instructions of a whole program: its functions, then its objects of
/// static storage duration in the order they were first declared.
pub open spec fn spec_generate(p: Program) -> Result<Seq<AsmAst>, ErrorKind> {
    match spec_declare_all(p, Seq::empty(), Seq::empty()) {
        Err(k) => Err(k),
        Ok((funcs, globals)) => match spec_gen_program(p, funcs, globals) {
            Err(k) => Err(k),
            Ok((code, g)) => Ok(code + spec_static_asm(g)),
        },
    }
}


// ---------------------------------------------------------------------------
// The file-scope pass and code generation.
// ---------------------------------------------------------------------------

fn semantic(msg: &str) -> (e: CompilerError)
    ensures
        e.kind() == ErrorKind::Semantic,
{
    CompilerError::with_message(ErrorKind::Semantic, msg)
}

/// Records a file-scope function declaration after checking it against
/// earlier declarations.
#[verifier::rlimit(30)]
pub fn typecheck_function_declaration(
    shared_functions_map: &mut Vec<(Name, FunAttr)>,
    shared_variables_map: &Vec<(Name, StaticAttr)>,
    func: &FunctionDeclaration,
) -> (r: Result<(), CompilerError>)
    ensures
        match spec_declare_function(old(shared_functions_map)@, shared_variables_map@, *func) {
            Ok(fs) => r is Ok && final(shared_functions_map)@ == fs,
            Err(k) => r matches Err(e) && e.kind() == k && final(shared_functions_map)@ == old(
                shared_functions_map,
            )@,
        },
{
    if assoc_find(shared_variables_map, func.name).is_some() {
        return Err(semantic("Variable redeclared as function"));
    }
    let is_static = match func.storage_class {
        Some(StorageClass::Static) => true,
        _ => false,
    };
    let mut defined = func.body.is_some();
    match assoc_find(shared_functions_map, func.name) {
        Some(i) => {
            let prev = &shared_functions_map[i].1;
            defined = defined || prev.defined;
            if prev.defined && func.body.is_some() {
                return Err(semantic("Duplicate definition"));
            }
            if prev.global && is_static {
                return Err(semantic("Static function declaration follows non-static"));
            }
            if !(type_lists_equal(&prev.func_type.params, &func.func_type.params)
                && prev.func_type.ret == func.func_type.ret) {
                return Err(semantic("Incompatible function declaration"));
            }
        },
        None => {},
    }
    let attr = FunAttr {
        defined,
        global: !is_static,
        func_type: clone_func_type(&func.func_type),
    };
    assoc_put(shared_functions_map, func.name, attr);
    Ok(())
}

fn initial_value(var: &VariableDeclaration) -> (r: Option<InitialValue>)
    ensures
        r == (match var.init {
            Some(e) => match e.kind {
                Expression::Constant(c) => Some(InitialValue::Initial(c)),
                _ => None,
            },
            None => if var.storage_class == Some(StorageClass::Extern) {
                Some(InitialValue::NoInitializer)
            } else {
                Some(InitialValue::Tentative)
            },
        }),
{
    match &var.init {
        Some(e) => match &e.kind {
            Expression::Constant(c) => Some(InitialValue::Initial(*c)),
            _ => None,
        },
        None => match var.storage_class {
            Some(StorageClass::Extern) => Some(InitialValue::NoInitializer),
            _ => Some(InitialValue::Tentative),
        },
    }
}

/// Records a file-scope variable declaration after checking it against
/// earlier declarations.
#[verifier::rlimit(30)]
pub fn typecheck_file_scope_variable_declaration(
    shared_functions_map: &Vec<(Name, FunAttr)>,
    shared_variables_map: &mut Vec<(Name, StaticAttr)>,
    var: &VariableDeclaration,
) -> (r: Result<(), CompilerError>)
    ensures
        match spec_declare_variable(shared_functions_map@, old(shared_variables_map)@, *var) {
            Ok(gs) => r is Ok && final(shared_variables_map)@ == gs,
            Err(k) => r matches Err(e) && e.kind() == k && final(shared_variables_map)@ == old(
                shared_variables_map,
            )@,
        },
{
    let iv = match initial_value(var) {
        Some(iv) => iv,
        None => return Err(semantic("Non-constant initializer")),
    };
    let (is_extern, global) = match var.storage_class {
        Some(StorageClass::Extern) => (true, true),
        Some(StorageClass::Static) => (false, false),
        None => (false, true),
    };
    if assoc_find(shared_functions_map, var.name).is_some() {
        return Err(semantic("Function redeclared as variable"));
    }
    match assoc_find(shared_variables_map, var.name) {
        None => {
            assoc_put(shared_variables_map, var.name, StaticAttr { init: iv, global, type_: var.var_type });
            Ok(())
        },
        Some(i) => {
            let prev = shared_variables_map[i].1;
            if var.var_type != prev.type_ {
                return Err(semantic("Conflicting variable types"));
            }
            if !is_extern && prev.global != global {
                return Err(semantic("Conflicting variable linkage"));
            }
            let prev_initial = match prev.init {
                InitialValue::Initial(_) => true,
                _ => false,
            };
            if prev_initial && var.init.is_some() {
                return Err(semantic("Conflicting file scope variable definitions"));
            }
            let g = if is_extern {
                prev.global
            } else {
                global
            };
            let init = if prev_initial {
                prev.init
            } else {
                match (iv, prev.init) {
                    (InitialValue::Initial(_), _) => iv,
                    (_, InitialValue::Tentative) => InitialValue::Tentative,
                    _ => iv,
                }
            };
            assoc_put(shared_variables_map, var.name, StaticAttr { init, global: g, type_: var.var_type });
            Ok(())
        },
    }
}

fn declare_all(
    p: &Program,
    funcs: &mut Vec<(Name, FunAttr)>,
    globals: &mut Vec<(Name, StaticAttr)>,
) -> (r: Result<(), CompilerError>)
    ensures
        match spec_declare_all(*p, old(funcs)@, old(globals)@) {
            Ok((fs, gs)) => r is Ok && final(funcs)@ == fs && final(globals)@ == gs,
            Err(k) => r matches Err(e) && e.kind() == k,
        },
    decreases p,
{
    match p {
        Program::Nil => Ok(()),
        Program::Cons(d, rest) => {
            match &**d {
                Declaration::FunctionDeclaration(f) => typecheck_function_declaration(funcs, globals, f)?,
                Declaration::VariableDeclaration(v) => typecheck_file_scope_variable_declaration(
                    funcs,
                    globals,
                    v,
                )?,
            }
            declare_all(rest, funcs, globals)
        },
    }
}

fn function_index(n: Name) -> (i: usize)
    ensures
        i == function_id(n),
{
    match n {
        Name::Source(i) => i,
        Name::Local { function, .. } => function,
        Name::StaticLocal { function, .. } => function,
    }
}

fn instructions_to_asm(body: &FunctionBody, out: &mut Vec<AsmAst>)
    requires
        body.current_offset <= FRAME_LIMIT,
    ensures
        final(out)@ == old(out)@ + spec_tac_list_to_asm(body.instructions@, body.current_offset as int),
{
    let mut i: usize = 0;
    let ghost o = out@;
    while i < body.instructions.len()
        invariant
            0 <= i <= body.instructions.len(),
            body.current_offset <= FRAME_LIMIT,
            out@ == o + spec_tac_list_to_asm(body.instructions@.take(i as int), body.current_offset as int),
        decreases body.instructions.len() - i,
    {
        proof {
            let t = body.instructions@.take(i + 1);
            assert(t.drop_last() =~= body.instructions@.take(i as int));
            assert(t.last() == body.instructions@[i as int]);
        }
        body.instructions[i].make_assembly(out, body);
        proof {
            let frame = body.current_offset as int;
            assert(out@ =~= o + spec_tac_list_to_asm(body.instructions@.take(i + 1), frame));
        }
        i += 1;
    }
    proof {
        assert(body.instructions@.take(i as int) =~= body.instructions@);
    }
}

fn function_asm(
    funcs: &Vec<(Name, FunAttr)>,
    globals: Vec<(Name, StaticAttr)>,
    f: FunctionDeclaration,
    out: &mut Vec<AsmAst>,
) -> (r: Result<Vec<(Name, StaticAttr)>, CompilerError>)
    ensures
        match spec_function_asm(funcs@, globals@, f) {
            Ok((code, gs)) => r matches Ok(g) && g@ == gs && final(out)@ == old(out)@ + code,
            Err(k) => r matches Err(e) && e.kind() == k,
        },
{
    let mut resolver = VariableResolutionVisitor::new(function_index(f.name), globals);
    let f1 = resolver.resolve_function(funcs, f)?;
    let globals = resolver.into_globals();
    let mut checker = TypeCheckVisitor::new();
    let f2 = checker.check_function(funcs, &globals, f1)?;
    let mut generator = TacVisitor::new(function_index(f2.name), FunctionBody::new());
    generator.gen_function(&f2)?;
    let mut body = generator.into_body();
    body.add_default_return();
    if body.current_offset > FRAME_LIMIT {
        return Err(semantic("Function too large"));
    }
    instructions_to_asm(&body, out);
    Ok(globals)
}

fn gen_program(
    p: Program,
    funcs: &Vec<(Name, FunAttr)>,
    globals: Vec<(Name, StaticAttr)>,
    out: &mut Vec<AsmAst>,
) -> (r: Result<Vec<(Name, StaticAttr)>, CompilerError>)
    ensures
        match spec_gen_program(p, funcs@, globals@) {
            Ok((code, gs)) => r matches Ok(g) && g@ == gs && final(out)@ == old(out)@ + code,
            Err(k) => r matches Err(e) && e.kind() == k,
        },
    decreases p,
{
    match p {
        Program::Nil => {
            proof {
                assert(out@ =~= old(out)@ + Seq::<AsmAst>::empty());
            }
            Ok(globals)
        },
        Program::Cons(d, rest) => match *d {
            Declaration::FunctionDeclaration(f) => {
                let ghost o = out@;
                let g1 = function_asm(funcs, globals, f, out)?;
                let ghost o1 = out@;
                let g2 = gen_program(*rest, funcs, g1, out)?;
                proof {
                    assert(out@ =~= o + (o1.skip(o.len() as int) + out@.skip(o1.len() as int)));
                }
                Ok(g2)
            },
            Declaration::VariableDeclaration(_) => gen_program(*rest, funcs, globals, out),
        },
    }
}

fn static_entries(globals: &Vec<(Name, StaticAttr)>, out: &mut Vec<AsmAst>)
    ensures
        final(out)@ == old(out)@ + spec_static_asm(globals@),
{
    let empty = FunctionBody::new();
    let ghost o = out@;
    let mut i: usize = 0;
    while i < globals.len()
        invariant
            0 <= i <= globals.len(),
            empty.current_offset == 8,
            out@ == o + spec_static_asm(globals@.take(i as int)),
        decreases globals.len() - i,
    {
        proof {
            let t = globals@.take(i + 1);
            assert(t.drop_last() =~= globals@.take(i as int));
            assert(t.last() == globals@[i as int]);
        }
        let (name, attr) = globals[i];
        match attr.init {
            InitialValue::Tentative => {
                out.push(
                    AsmAst::Static {
                        size: size_of_type(attr.type_),
                        name,
                        global: attr.global,
                        init: zero_of(attr.type_),
                    },
                );
            },
            InitialValue::Initial(c) => {
                out.push(AsmAst::Static { size: size_of_type(attr.type_), name, global: attr.global, init: c });
            },
            InitialValue::NoInitializer => {},
        }
        proof {
            assert(out@ =~= o + spec_static_asm(globals@.take(i + 1)));
        }
        i += 1;
    }
    proof {
        assert(globals@.take(i as int) =~= globals@);
    }
}

impl Program {
    /// Compiles a parsed program to x86-64 instructions: the file-scope pass,
    /// then resolution, type checking and code generation of each function,
    /// then the definitions of the objects of static storage duration.
    pub fn generate(self) -> (r: Result<Vec<AsmAst>, CompilerError>)
        ensures
            match spec_generate(self) {
                Ok(code) => r matches Ok(v) && v@ == code,
                Err(k) => r matches Err(e) && e.kind() == k,
            },
    {
        let mut funcs: Vec<(Name, FunAttr)> = Vec::new();
        let mut globals: Vec<(Name, StaticAttr)> = Vec::new();
        declare_all(&self, &mut funcs, &mut globals)?;
        let mut out: Vec<AsmAst> = Vec::new();
        let globals = gen_program(self, &funcs, globals, &mut out)?;
        static_entries(&globals, &mut out);
        Ok(out)
    }
}


/// Every jump in the three-address code of a function goes to a label that
/// the same code places: resolution names each `break` and `continue` after
/// its innermost loop, type checking keeps those names, and code generation
/// places every label it jumps to.
pub proof fn lemma_function_jumps_placed(
    funcs: Seq<(Name, FunAttr)>,
    globals: Seq<(Name, StaticAttr)>,
    f: FunctionDeclaration,
)
    ensures
        spec_resolve_function(funcs, fresh_resolve_state(function_id(f.name), globals), f) matches Ok(
            (f1, st1),
        ) ==> (spec_check_function(
            funcs,
            st1.globals,
            TypeState { locals: Seq::empty(), ret: Type::Void },
            f1,
        ) matches Ok((f2, _)) ==> (spec_gen_function(fresh_gen_state(function_id(f2.name)), f2) matches Ok(
            g,
        ) ==> jumps_placed(spec_add_default_return(g.instrs), Set::empty()))),
{
    lemma_resolve_function_jumps(funcs, globals, function_id(f.name), f);
    if let Ok((f1, st1)) = spec_resolve_function(funcs, fresh_resolve_state(function_id(f.name), globals), f) {
        let ts = TypeState { locals: Seq::empty(), ret: Type::Void };
        lemma_check_function_jumps(funcs, st1.globals, ts, f1);
        if let Ok((f2, _)) = spec_check_function(funcs, st1.globals, ts, f1) {
            let st = fresh_gen_state(function_id(f2.name));
            lemma_gen_function_jumps(st, f2);
            if let Ok(g) = spec_gen_function(st, f2) {
                lemma_default_return_jumps(g.instrs, Set::empty());
            }
        }
    }
}


/// The assembly of a function jumps only to labels it defines.
pub proof fn lemma_function_asm_labels(
    funcs: Seq<(Name, FunAttr)>,
    globals: Seq<(Name, StaticAttr)>,
    f: FunctionDeclaration,
)
    ensures
        spec_function_asm(funcs, globals, f) matches Ok((a, _)) ==> asm_jumps_defined(a),
{
    lemma_function_jumps_placed(funcs, globals, f);
    let rst = fresh_resolve_state(function_id(f.name), globals);
    if let Ok((f1, st1)) = spec_resolve_function(funcs, rst, f) {
        let ts = TypeState { locals: Seq::empty(), ret: Type::Void };
        if let Ok((f2, _)) = spec_check_function(funcs, st1.globals, ts, f1) {
            if let Ok(g) = spec_gen_function(fresh_gen_state(function_id(f2.name)), f2) {
                let code = spec_add_default_return(g.instrs);
                lemma_tac_list_flow(code, g.offset);
                let a = spec_tac_list_to_asm(code, g.offset);
                assert forall|j: int| 0 <= j < a.len() && #[trigger] asm_jump(a[j]) is Some implies asm_defines(
                    a,
                    asm_jump(a[j])->Some_0,
                ) by {
                    let l = asm_jump(a[j])->Some_0;
                    assert(asm_jumps_to(a, l));
                    assert(tac_jumps_to(code, l));
                    let k = choose|k: int| 0 <= k < code.len() && #[trigger] jump_target(code[k]) == Some(l);
                    assert(jump_target(code[k]) is Some);
                }
            }
        }
    }
}

proof fn lemma_jumps_defined_concat(a: Seq<AsmAst>, b: Seq<AsmAst>)
    requires
        asm_jumps_defined(a),
        asm_jumps_defined(b),
    ensures
        asm_jumps_defined(a + b),
{
    let c = a + b;
    assert forall|j: int| 0 <= j < c.len() && #[trigger] asm_jump(c[j]) is Some implies asm_defines(
        c,
        asm_jump(c[j])->Some_0,
    ) by {
        let l = asm_jump(c[j])->Some_0;
        if j < a.len() {
            assert(c[j] == a[j]);
            assert(asm_defines(a, l));
            let k = choose|k: int| 0 <= k < a.len() && #[trigger] asm_label(a[k]) == Some(l);
            assert(c[k] == a[k]);
        } else {
            assert(c[j] == b[j - a.len()]);
            assert(asm_jump(b[j - a.len()]) is Some);
            assert(asm_defines(b, l));
            let k = choose|k: int| 0 <= k < b.len() && #[trigger] asm_label(b[k]) == Some(l);
            assert(c[a.len() + k] == b[k]);
        }
    }
}

proof fn lemma_static_asm_jumps(globals: Seq<(Name, StaticAttr)>)
    ensures
        asm_jumps_defined(spec_static_asm(globals)),
    decreases globals.len(),
{
    if globals.len() > 0 {
        lemma_static_asm_jumps(globals.drop_last());
        let e = spec_static_entry(globals.last().0, globals.last().1);
        assert forall|j: int| 0 <= j < e.len() implies #[trigger] asm_jump(e[j]) is None by {}
        lemma_jumps_defined_concat(spec_static_asm(globals.drop_last()), e);
    }
}

proof fn lemma_gen_program_jumps(p: Program, funcs: Seq<(Name, FunAttr)>, globals: Seq<(Name, StaticAttr)>)
    ensures
        spec_gen_program(p, funcs, globals) matches Ok((code, _)) ==> asm_jumps_defined(code),
    decreases p,
{
    if let Program::Cons(d, rest) = p {
        match *d {
            Declaration::FunctionDeclaration(f) => {
                lemma_function_asm_labels(funcs, globals, f);
                if let Ok((a, g1)) = spec_function_asm(funcs, globals, f) {
                    lemma_gen_program_jumps(*rest, funcs, g1);
                    if let Ok((b, _)) = spec_gen_program(*rest, funcs, g1) {
                        lemma_jumps_defined_concat(a, b);
                    }
                }
            },
            Declaration::VariableDeclaration(_) => lemma_gen_program_jumps(*rest, funcs, globals),
        }
    }
}

/// Every jump of the assembly of a program, before and after the fix-up,
/// goes to a label the assembly defines.
pub proof fn lemma_generate_jumps_defined(p: Program)
    ensures
        spec_generate(p) matches Ok(code) ==> asm_jumps_defined(code) && asm_jumps_defined(
            spec_assembly_fix(code),
        ),
{
    if let Ok((funcs, globals)) = spec_declare_all(p, Seq::empty(), Seq::empty()) {
        lemma_gen_program_jumps(p, funcs, globals);
        if let Ok((code, g)) = spec_gen_program(p, funcs, globals) {
            lemma_static_asm_jumps(g);
            lemma_jumps_defined_concat(code, spec_static_asm(g));
            lemma_assembly_fix_keeps_labels(code + spec_static_asm(g));
        }
    }
}

} // verus!
