//! Properties of translation as a whole, proved from the contracts of the
//! translating functions.
use vstd::prelude::*;
use crate::abi::N_UPCALL_GLUES;
use crate::ast::Crate;
use crate::backend::{count_named, defined_names, fn_names, Module};
use crate::model::{glue_names, glue_state, items_error, items_fn_paths, lemma_items_effect};
use crate::session::{Session, TransError};
use crate::trans::{crate_translated, fns_shaped, glue_layout, spec_lookup, spec_upcall_handle, upcall_requested, TransCtxt};

verus! {

/// A crate whose every statement logs an integer literal translates, and its
/// module defines exactly one function per function item, in declaration
/// order, named by the dotted path of enclosing modules and its own name.
pub proof fn law_supported_crate_defines_each_fn(
    sess: Session,
    krate: Crate,
    code: Seq<char>,
    r: Result<Module, TransError>,
)
    requires
        crate_translated(sess, krate, code, r),
        items_error(krate.module.items@) is None,
    ensures
        r is Ok,
        defined_names(r->Ok_0.functions@) == items_fn_paths(Seq::empty(), krate.module.items@),
{
    lemma_items_effect(glue_state(), Seq::empty(), krate.module.items@);
    assert(Seq::<Seq<char>>::empty() + items_fn_paths(Seq::empty(), krate.module.items@)
        =~= items_fn_paths(Seq::empty(), krate.module.items@));
}

/// Requesting the same upcall twice gives the same handle both times; the
/// second request changes nothing, and the two together declare one function
/// of that name if it was not cached before, none otherwise.
pub proof fn law_get_upcall_idempotent(
    c0: TransCtxt,
    c1: TransCtxt,
    c2: TransCtxt,
    name: Seq<char>,
    n: nat,
    m: nat,
)
    requires
        c0.wf(),
        upcall_requested(c0, c1, name, n),
        upcall_requested(c1, c2, name, m),
    ensures
        spec_upcall_handle(c1, name) == spec_upcall_handle(c0, name),
        c2 == c1,
        count_named(c2.llmod.functions@, name) == count_named(c0.llmod.functions@, name) + if spec_lookup(
            c0.upcalls.entries@,
            name,
        ) is Some {
            0nat
        } else {
            1nat
        },
{
    if spec_lookup(c0.upcalls.entries@, name) is None {
        let fs = c1.llmod.functions@;
        assert(fs.drop_last() == c0.llmod.functions@);
    }
}

/// The glue table comes first in every translated module: the activate and
/// yield glues, then one glue for each upcall arity below the fixed maximum,
/// declared before any function of the crate.
pub proof fn law_glue_table_first(sess: Session, krate: Crate, code: Seq<char>, m: Module)
    requires
        crate_translated(sess, krate, code, Ok(m)),
    ensures
        glue_layout(m.functions@),
        fn_names(m.functions@).subrange(0, N_UPCALL_GLUES + 2) == glue_names(),
        glue_names().len() == N_UPCALL_GLUES + 2,
{
    lemma_items_effect(glue_state(), Seq::empty(), krate.module.items@);
}

/// Translating the same crate twice gives the same outcome, with the same
/// declarations and definitions in the same order, the glue table first and
/// every later function shaped alike in both.
pub proof fn law_translation_deterministic(
    sess: Session,
    krate: Crate,
    code: Seq<char>,
    r1: Result<Module, TransError>,
    r2: Result<Module, TransError>,
)
    requires
        crate_translated(sess, krate, code, r1),
        crate_translated(sess, krate, code, r2),
    ensures
        r1 is Ok <==> r2 is Ok,
        r1 is Err ==> r1 == r2,
        r1 is Ok ==> fn_names(r1->Ok_0.functions@) == fn_names(r2->Ok_0.functions@),
        r1 is Ok ==> defined_names(r1->Ok_0.functions@) == defined_names(r2->Ok_0.functions@),
        r1 is Ok ==> glue_layout(r1->Ok_0.functions@) && glue_layout(r2->Ok_0.functions@),
        r1 is Ok ==> fns_shaped(r1->Ok_0.functions@) && fns_shaped(r2->Ok_0.functions@),
{
}

} // verus!
