use crate::ast::{Const, FuncType, Name, TypeList};
use crate::lexer::Type;
use vstd::prelude::*;

verus! {

/// What is known of a function: whether it has a definition, whether it is
/// visible outside the translation unit, and its type.
#[derive(Debug)]
pub struct FunAttr {
    pub defined: bool,
    pub global: bool,
    pub func_type: FuncType,
}

#[derive(Debug, Clone, Copy, PartialEq, Eq, Structural)]
pub enum InitialValue {
    Tentative,
    Initial(Const),
    NoInitializer,
}

/// What is known of a variable with static storage duration.
#[derive(Debug, Clone, Copy, PartialEq, Eq, Structural)]
pub struct StaticAttr {
    pub init: InitialValue,
    pub global: bool,
    pub type_: Type,
}

/// First index at or after `i` whose key is `k`.
pub open spec fn assoc_index_from<V>(m: Seq<(Name, V)>, k: Name, i: int) -> Option<int>
    decreases m.len() - i,
{
    if i < 0 || i >= m.len() {
        None
    } else if m[i].0 == k {
        Some(i)
    } else {
        assoc_index_from(m, k, i + 1)
    }
}

/// The index of key `k` in an association list.
pub open spec fn assoc_index<V>(m: Seq<(Name, V)>, k: Name) -> Option<int> {
    assoc_index_from(m, k, 0)
}

/// The value stored under `k`, if any.
pub open spec fn assoc_get<V>(m: Seq<(Name, V)>, k: Name) -> Option<V> {
    match assoc_index(m, k) {
        Some(i) => Some(m[i].1),
        None => None,
    }
}

pub open spec fn assoc_contains<V>(m: Seq<(Name, V)>, k: Name) -> bool {
    assoc_index(m, k) is Some
}

/// The list with `k` mapped to `v`: in place when `k` is present, at the end otherwise.
pub open spec fn assoc_insert<V>(m: Seq<(Name, V)>, k: Name, v: V) -> Seq<(Name, V)> {
    match assoc_index(m, k) {
        Some(i) => m.update(i, (k, v)),
        None => m.push((k, v)),
    }
}

pub proof fn lemma_assoc_index_from<V>(m: Seq<(Name, V)>, k: Name, i: int)
    requires
        0 <= i,
    ensures
        assoc_index_from(m, k, i) matches Some(j) ==> i <= j < m.len() && m[j].0 == k,
        assoc_index_from(m, k, i) is None ==> forall|j: int| i <= j < m.len() ==> m[j].0 != k,
    decreases m.len() - i,
{
    if i < m.len() && m[i].0 != k {
        lemma_assoc_index_from(m, k, i + 1);
    }
}

/// The index of `k` in `m`, if present.
pub fn assoc_find<V>(m: &Vec<(Name, V)>, k: Name) -> (r: Option<usize>)
    ensures
        match assoc_index(m@, k) {
            Some(i) => r == Some(i as usize),
            None => r is None,
        },
        r matches Some(i) ==> i < m.len() && assoc_index(m@, k) == Some(i as int),
{
    let mut i: usize = 0;
    while i < m.len()
        invariant
            0 <= i <= m.len(),
            assoc_index(m@, k) == assoc_index_from(m@, k, i as int),
        decreases m.len() - i,
    {
        if m[i].0 == k {
            return Some(i);
        }
        i += 1;
    }
    None
}

/// Maps `k` to `v`, replacing an earlier binding.
pub fn assoc_put<V>(m: &mut Vec<(Name, V)>, k: Name, v: V)
    ensures
        final(m)@ == assoc_insert(old(m)@, k, v),
{
    let ghost m0 = m@;
    match assoc_find(m, k) {
        Some(i) => {
            m.set(i, (k, v));
            assert(m@ =~= m0.update(i as int, (k, v)));
            assert(assoc_index(m0, k) == Some(i as int));
        },
        None => {
            m.push((k, v));
            assert(assoc_index(m0, k) is None);
            assert(m@ =~= m0.push((k, v)));
        },
    }
}

pub open spec fn type_list_len(l: TypeList) -> nat
    decreases l,
{
    match l {
        TypeList::Nil => 0,
        TypeList::Cons(_, rest) => 1 + type_list_len(*rest),
    }
}

/// A copy of a type list.
pub fn clone_type_list(l: &TypeList) -> (r: TypeList)
    ensures
        r == *l,
    decreases l,
{
    match l {
        TypeList::Nil => TypeList::Nil,
        TypeList::Cons(t, rest) => TypeList::Cons(*t, Box::new(clone_type_list(rest))),
    }
}

/// Whether two type lists are equal.
pub fn type_lists_equal(a: &TypeList, b: &TypeList) -> (r: bool)
    ensures
        r == (*a == *b),
    decreases a,
{
    match (a, b) {
        (TypeList::Nil, TypeList::Nil) => true,
        (TypeList::Cons(x, xs), TypeList::Cons(y, ys)) => *x == *y && type_lists_equal(xs, ys),
        _ => false,
    }
}

pub fn clone_func_type(f: &FuncType) -> (r: FuncType)
    ensures
        r == *f,
{
    FuncType { params: clone_type_list(&f.params), ret: f.ret }
}

} // verus!
