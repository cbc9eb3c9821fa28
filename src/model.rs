//! What translation produces, stated over the program tree: the first construct
//! that stops it, and otherwise the declarations, definitions and cached upcalls
//! that it adds, in order.
use vstd::prelude::*;
use crate::abi::{spec_activate_glue_name, spec_upcall_glue_name, spec_yield_glue_name, N_UPCALL_GLUES};
use crate::ast::{Atom, Item, Lit, Stmt};
use crate::session::Construct;

verus! {

/// The observable state of a translation: names of all declared functions in
/// order, names of the functions given a body in order, and the cached upcalls.
pub struct TransState {
    pub decls: Seq<Seq<char>>,
    pub defined: Seq<Seq<char>>,
    pub upcalls: Set<Seq<char>>,
}

pub open spec fn log_upcall_name() -> Seq<char> {
    "upcall_log_int"@
}

/// Qualified path of item `name` nested under `path`.
pub open spec fn child_path(path: Seq<char>, name: Seq<char>) -> Seq<char> {
    path + "."@ + name
}

/// The glue symbols, in the order in which they are declared.
pub open spec fn glue_names() -> Seq<Seq<char>> {
    seq![spec_activate_glue_name(), spec_yield_glue_name()] + Seq::new(
        N_UPCALL_GLUES as nat,
        |i: int| spec_upcall_glue_name(i as nat),
    )
}

/// The state once the glue table is built.
pub open spec fn glue_state() -> TransState {
    TransState { decls: glue_names(), defined: Seq::empty(), upcalls: Set::empty() }
}

/// Requesting upcall `name`: declared and cached on the first request only.
pub open spec fn upcall_effect(st: TransState, name: Seq<char>) -> TransState {
    if st.upcalls.contains(name) {
        st
    } else {
        TransState { decls: st.decls.push(name), defined: st.defined, upcalls: st.upcalls.insert(name) }
    }
}

pub open spec fn stmt_error(s: Stmt) -> Option<Construct> {
    match s {
        Stmt::Log(Atom::Lit(Lit::Int(_))) => None,
        Stmt::Log(Atom::Lit(_)) => Some(Construct::LiteralVariant),
        Stmt::Log(_) => Some(Construct::AtomVariant),
        _ => Some(Construct::StmtVariant),
    }
}

pub open spec fn stmt_effect(st: TransState, s: Stmt) -> TransState {
    match s {
        Stmt::Log(Atom::Lit(Lit::Int(_))) => upcall_effect(st, log_upcall_name()),
        _ => st,
    }
}

/// The first construct of a block that is not covered.
pub open spec fn stmts_error(b: Seq<Stmt>) -> Option<Construct>
    decreases b.len(),
{
    if b.len() == 0 {
        None
    } else if stmts_error(b.drop_last()) is Some {
        stmts_error(b.drop_last())
    } else {
        stmt_error(b.last())
    }
}

pub open spec fn stmts_effect(st: TransState, b: Seq<Stmt>) -> TransState
    decreases b.len(),
{
    if b.len() == 0 {
        st
    } else {
        stmt_effect(stmts_effect(st, b.drop_last()), b.last())
    }
}

/// A function at `path` with body `body`: declared, then its body's upcalls, then defined.
pub open spec fn fn_effect(st: TransState, path: Seq<char>, body: Seq<Stmt>) -> TransState {
    let s1 = stmts_effect(
        TransState { decls: st.decls.push(path), defined: st.defined, upcalls: st.upcalls },
        body,
    );
    TransState { decls: s1.decls, defined: s1.defined.push(path), upcalls: s1.upcalls }
}

pub open spec fn item_error(item: Item) -> Option<Construct>
    decreases item,
{
    match item {
        Item::Fn(f) => stmts_error(f.body@),
        Item::Mod(m) => items_error(m.items@),
    }
}

/// The first construct, in declaration order and depth first, that is not covered.
pub open spec fn items_error(items: Seq<(String, Item)>) -> Option<Construct>
    decreases items,
{
    if items.len() == 0 {
        None
    } else if items_error(items.subrange(0, items.len() - 1)) is Some {
        items_error(items.subrange(0, items.len() - 1))
    } else {
        item_error(items[items.len() - 1].1)
    }
}

pub open spec fn item_effect(st: TransState, path: Seq<char>, name: Seq<char>, item: Item) -> TransState
    decreases item,
{
    match item {
        Item::Fn(f) => fn_effect(st, child_path(path, name), f.body@),
        Item::Mod(m) => items_effect(st, child_path(path, name), m.items@),
    }
}

pub open spec fn items_effect(st: TransState, path: Seq<char>, items: Seq<(String, Item)>) -> TransState
    decreases items,
{
    if items.len() == 0 {
        st
    } else {
        let last = items[items.len() - 1];
        item_effect(items_effect(st, path, items.subrange(0, items.len() - 1)), path, last.0@, last.1)
    }
}

/// Qualified paths of the function items under `path`, depth first.
pub open spec fn item_fn_paths(path: Seq<char>, name: Seq<char>, item: Item) -> Seq<Seq<char>>
    decreases item,
{
    match item {
        Item::Fn(_) => seq![child_path(path, name)],
        Item::Mod(m) => items_fn_paths(child_path(path, name), m.items@),
    }
}

pub open spec fn items_fn_paths(path: Seq<char>, items: Seq<(String, Item)>) -> Seq<Seq<char>>
    decreases items,
{
    if items.len() == 0 {
        Seq::empty()
    } else {
        let last = items[items.len() - 1];
        items_fn_paths(path, items.subrange(0, items.len() - 1)) + item_fn_paths(path, last.0@, last.1)
    }
}

/// A block's statements only declare: they define no function.
pub proof fn lemma_stmts_effect_defined(st: TransState, b: Seq<Stmt>)
    ensures
        stmts_effect(st, b).defined == st.defined,
        stmts_effect(st, b).decls.len() >= st.decls.len(),
        stmts_effect(st, b).decls.subrange(0, st.decls.len() as int) == st.decls,
    decreases b.len(),
{
    if b.len() > 0 {
        let s0 = stmts_effect(st, b.drop_last());
        lemma_stmts_effect_defined(st, b.drop_last());
        let s1 = stmts_effect(st, b);
        assert(s1.decls.subrange(0, st.decls.len() as int) =~= st.decls) by {
            assert forall|j: int| 0 <= j < st.decls.len() implies s1.decls[j] == st.decls[j] by {
                assert(s0.decls.subrange(0, st.decls.len() as int)[j] == s0.decls[j]);
            }
        }
    } else {
        assert(st.decls.subrange(0, st.decls.len() as int) =~= st.decls);
    }
}

/// Translating an item adds the paths of its functions to the defined ones,
/// and only appends to the declarations.
pub proof fn lemma_item_effect(st: TransState, path: Seq<char>, name: Seq<char>, item: Item)
    ensures
        item_effect(st, path, name, item).defined == st.defined + item_fn_paths(path, name, item),
        item_effect(st, path, name, item).decls.len() >= st.decls.len(),
        item_effect(st, path, name, item).decls.subrange(0, st.decls.len() as int) == st.decls,
    decreases item,
{
    match item {
        Item::Fn(f) => {
            let p = child_path(path, name);
            let s0 = TransState { decls: st.decls.push(p), defined: st.defined, upcalls: st.upcalls };
            lemma_stmts_effect_defined(s0, f.body@);
            let s1 = stmts_effect(s0, f.body@);
            assert(st.defined + seq![p] =~= st.defined.push(p));
            assert forall|j: int| 0 <= j < st.decls.len() implies s1.decls[j] == st.decls[j] by {
                assert(s1.decls.subrange(0, s0.decls.len() as int)[j] == s1.decls[j]);
                assert(s0.decls[j] == st.decls[j]);
            }
            assert(s1.decls.subrange(0, st.decls.len() as int) =~= st.decls);
        },
        Item::Mod(m) => {
            lemma_items_effect(st, child_path(path, name), m.items@);
        },
    }
}

pub proof fn lemma_items_effect(st: TransState, path: Seq<char>, items: Seq<(String, Item)>)
    ensures
        items_effect(st, path, items).defined == st.defined + items_fn_paths(path, items),
        items_effect(st, path, items).decls.len() >= st.decls.len(),
        items_effect(st, path, items).decls.subrange(0, st.decls.len() as int) == st.decls,
    decreases items,
{
    if items.len() == 0 {
        assert(st.defined + Seq::<Seq<char>>::empty() =~= st.defined);
        assert(st.decls.subrange(0, st.decls.len() as int) =~= st.decls);
    } else {
        let init = items.subrange(0, items.len() - 1);
        let last = items[items.len() - 1];
        lemma_items_effect(st, path, init);
        let s0 = items_effect(st, path, init);
        lemma_item_effect(s0, path, last.0@, last.1);
        let s1 = items_effect(st, path, items);
        assert(s1.defined =~= st.defined + items_fn_paths(path, items));
        assert forall|j: int| 0 <= j < st.decls.len() implies s1.decls[j] == st.decls[j] by {
            assert(s1.decls.subrange(0, s0.decls.len() as int)[j] == s1.decls[j]);
            assert(s0.decls.subrange(0, st.decls.len() as int)[j] == s0.decls[j]);
        }
        assert(s1.decls.subrange(0, st.decls.len() as int) =~= st.decls);
    }
}

} // verus!
