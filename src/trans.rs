//! Translation of a program tree into a code-generator module.
use vstd::prelude::*;
use vstd::string::StrSliceExecFns;
use vstd::string::StringSliceAdditionalSpecFns;
use vstd::string::StringExecFns;
use crate::abi::{
    activate_glue_name, spec_activate_glue_name, spec_upcall_glue_name, spec_yield_glue_name,
    upcall_glue_name, yield_glue_name, N_UPCALL_GLUES,
};
use crate::ast::{Atom, Crate, FnDef, Item, Lit, Mod, Stmt};
use crate::backend::{
    const_pointer_cast, defined_names, fn_names, get_param, lemma_defined_names_append, BasicBlock,
    Builder, CallConv, Function, Inst, Module, TypeRef, ValueRef,
};
use crate::model::{
    child_path, fn_effect, glue_names, glue_state, item_effect, item_error, items_effect, items_error,
    lemma_stmts_effect_defined, log_upcall_name, stmt_effect, stmt_error, stmts_effect, stmts_error,
    upcall_effect, TransState,
};
use crate::session::{Construct, Session, TransError};

verus! {

// Types.

/// The task record as the runtime lays out its visible header: a reference
/// count, then what only the runtime knows.
pub open spec fn spec_task_type(t: TypeRef) -> bool {
    match t {
        TypeRef::Struct(fs) => fs@ == seq![TypeRef::Int, TypeRef::Opaque],
        _ => false,
    }
}

pub open spec fn spec_task_ptr(t: TypeRef) -> bool {
    match t {
        TypeRef::Ptr(b) => spec_task_type(*b),
        _ => false,
    }
}

/// A function type whose first parameter is a task pointer, followed by
/// `n` integers, returning `out`.
pub open spec fn spec_task_fn_type(t: TypeRef, n: nat, out: TypeRef) -> bool {
    match t {
        TypeRef::Fn(ins, o) => {
            &&& ins@.len() == n + 1
            &&& spec_task_ptr(ins@[0])
            &&& forall|i: int| 1 <= i < n + 1 ==> #[trigger] ins@[i] == TypeRef::Int
            &&& *o == out
        },
        _ => false,
    }
}

/// Type of the activate and yield glues: a task pointer to nothing.
pub open spec fn spec_glue_type(t: TypeRef) -> bool {
    spec_task_fn_type(t, 0, TypeRef::Void)
}

/// Type of the glue for upcalls of arity `n`: task pointer, callee index and
/// `n` arguments, all integers, to an integer.
pub open spec fn spec_upcall_glue_type(t: TypeRef, n: nat) -> bool {
    spec_task_fn_type(t, n + 1, TypeRef::Int)
}

/// Type of an upcall of arity `n`: task pointer and `n` integers, to nothing.
pub open spec fn spec_upcall_type(t: TypeRef, n: nat) -> bool {
    spec_task_fn_type(t, n, TypeRef::Void)
}

/// Type of every translated function: result slot, task pointer, no value.
pub open spec fn spec_item_fn_type(t: TypeRef) -> bool {
    match t {
        TypeRef::Fn(ins, o) => {
            &&& ins@.len() == 2
            &&& ins@[0] == TypeRef::Ptr(Box::new(TypeRef::Int))
            &&& spec_task_ptr(ins@[1])
            &&& *o == TypeRef::Void
        },
        _ => false,
    }
}

#[allow(non_snake_case)]
pub fn T_nil() -> (r: TypeRef)
    ensures
        r == TypeRef::Void,
{
    TypeRef::Void
}

#[allow(non_snake_case)]
pub fn T_int() -> (r: TypeRef)
    ensures
        r == TypeRef::Int,
{
    TypeRef::Int
}

#[allow(non_snake_case)]
pub fn T_fn(inputs: Vec<TypeRef>, output: TypeRef) -> (r: TypeRef)
    ensures
        r == TypeRef::Fn(inputs, Box::new(output)),
{
    TypeRef::Fn(inputs, Box::new(output))
}

#[allow(non_snake_case)]
pub fn T_ptr(t: TypeRef) -> (r: TypeRef)
    ensures
        r == TypeRef::Ptr(Box::new(t)),
{
    TypeRef::Ptr(Box::new(t))
}

#[allow(non_snake_case)]
pub fn T_struct(elts: Vec<TypeRef>) -> (r: TypeRef)
    ensures
        r == TypeRef::Struct(elts),
{
    TypeRef::Struct(elts)
}

#[allow(non_snake_case)]
pub fn T_opaque() -> (r: TypeRef)
    ensures
        r == TypeRef::Opaque,
{
    TypeRef::Opaque
}

#[allow(non_snake_case)]
pub fn T_task() -> (r: TypeRef)
    ensures
        spec_task_type(r),
{
    T_struct(vec![T_int(), T_opaque()])
}

/// `n` integer types.
fn ints(n: usize) -> (r: Vec<TypeRef>)
    ensures
        r@.len() == n,
        forall|i: int| 0 <= i < n ==> #[trigger] r@[i] == TypeRef::Int,
{
    let mut v: Vec<TypeRef> = Vec::new();
    let mut i: usize = 0;
    while i < n
        invariant
            i <= n,
            v@.len() == i,
            forall|j: int| 0 <= j < i ==> #[trigger] v@[j] == TypeRef::Int,
        decreases n - i,
    {
        v.push(T_int());
        i = i + 1;
    }
    v
}

// Constants.

#[allow(non_snake_case)]
pub fn C_null(t: TypeRef) -> (r: ValueRef)
    ensures
        r == ValueRef::ConstNull(t),
{
    ValueRef::ConstNull(t)
}

#[allow(non_snake_case)]
pub fn C_int(i: i64) -> (r: ValueRef)
    ensures
        r == ValueRef::ConstInt(TypeRef::Int, i),
{
    ValueRef::ConstInt(T_int(), i)
}

/// The bytes of `s` with their count, and no terminator.
#[allow(non_snake_case)]
pub fn C_str(s: &str) -> (r: ValueRef)
    ensures
        r matches ValueRef::ConstStr(b, n) && b@ == s.spec_bytes() && n == s.spec_bytes().len(),
{
    let b = s.as_bytes_vec();
    let n = b.len();
    ValueRef::ConstStr(b, n)
}

#[allow(non_snake_case)]
pub fn C_struct(elts: Vec<ValueRef>) -> (r: ValueRef)
    ensures
        r == ValueRef::ConstStruct(elts),
{
    ValueRef::ConstStruct(elts)
}

// Declarations.

/// `new` is `old` with one more function declared at its end, called `name`,
/// with the C calling convention and no body; `r` is its handle.
pub open spec fn declared(old: Module, new: Module, name: Seq<char>, r: ValueRef) -> bool {
    &&& old.functions@.len() <= usize::MAX
    &&& r == ValueRef::Function(old.functions@.len() as usize)
    &&& new.functions@.len() == old.functions@.len() + 1
    &&& new.functions@.drop_last() == old.functions@
    &&& new.functions@.last().name@ == name
    &&& new.functions@.last().call_conv == CallConv::C
    &&& new.functions@.last().blocks@.len() == 0
    &&& new.name == old.name
    &&& new.inline_asm == old.inline_asm
}

pub fn decl_cdecl_fn(llmod: &mut Module, name: &str, inputs: Vec<TypeRef>, output: TypeRef) -> (r:
    ValueRef)
    ensures
        declared(*old(llmod), *final(llmod), name@, r),
        final(llmod).functions@.last().ty == TypeRef::Fn(inputs, Box::new(output)),
{
    let llty = T_fn(inputs, output);
    llmod.add_function(name, llty, CallConv::C)
}

pub fn decl_glue(llmod: &mut Module, s: &str) -> (r: ValueRef)
    ensures
        declared(*old(llmod), *final(llmod), s@, r),
        spec_glue_type(final(llmod).functions@.last().ty),
{
    decl_cdecl_fn(llmod, s, vec![T_ptr(T_task())], T_nil())
}

/// Declares the glue for upcalls of arity `n`.
pub fn decl_upcall(llmod: &mut Module, n: usize) -> (r: ValueRef)
    ensures
        declared(*old(llmod), *final(llmod), spec_upcall_glue_name(n as nat), r),
        spec_upcall_glue_type(final(llmod).functions@.last().ty, n as nat),
{
    let s = upcall_glue_name(n);
    let mut args = vec![T_ptr(T_task()), T_int()];
    let mut rest = ints(n);
    args.append(&mut rest);
    decl_cdecl_fn(llmod, s.as_str(), args, T_int())
}


// Contexts.

/// The glue stubs, declared once per module before any function body.
pub struct GlueFns {
    pub activate_glue: ValueRef,
    pub yield_glue: ValueRef,
    /// The glue for upcalls of arity `n` is at index `n`.
    pub upcall_glues: Vec<ValueRef>,
}

/// Upcalls declared so far, by name.
pub struct UpcallCache {
    pub entries: Vec<(String, ValueRef)>,
}

/// The handle cached under `name`: the latest entry with that name.
pub open spec fn spec_lookup(e: Seq<(String, ValueRef)>, name: Seq<char>) -> Option<ValueRef>
    decreases e.len(),
{
    if e.len() == 0 {
        None
    } else if e.last().0@ == name {
        Some(e.last().1)
    } else {
        spec_lookup(e.drop_last(), name)
    }
}

pub open spec fn cached_names(e: Seq<(String, ValueRef)>) -> Set<Seq<char>> {
    Set::new(|k: Seq<char>| spec_lookup(e, k) is Some)
}

proof fn lemma_lookup_index(e: Seq<(String, ValueRef)>, name: Seq<char>) -> (i: int)
    requires
        spec_lookup(e, name) is Some,
    ensures
        0 <= i < e.len(),
        e[i].0@ == name,
        e[i].1 == spec_lookup(e, name)->0,
    decreases e.len(),
{
    if e.last().0@ == name {
        e.len() - 1
    } else {
        lemma_lookup_index(e.drop_last(), name)
    }
}

impl UpcallCache {
    pub fn new() -> (r: UpcallCache)
        ensures
            r.entries@.len() == 0,
    {
        UpcallCache { entries: Vec::new() }
    }

    pub fn find(&self, name: &String) -> (r: Option<ValueRef>)
        requires
            forall|i: int| 0 <= i < self.entries@.len() ==> (#[trigger] self.entries@[i]).1.is_handle(),
        ensures
            r == spec_lookup(self.entries@, name@),
    {
        let mut i = self.entries.len();
        proof {
            assert(self.entries@.subrange(0, i as int) =~= self.entries@);
        }
        while i > 0
            invariant
                i <= self.entries@.len(),
                forall|j: int| 0 <= j < self.entries@.len() ==> (#[trigger] self.entries@[j]).1.is_handle(),
                spec_lookup(self.entries@, name@) == spec_lookup(self.entries@.subrange(0, i as int), name@),
            decreases i,
        {
            let k = i - 1;
            proof {
                assert(self.entries@.subrange(0, i as int).drop_last() =~= self.entries@.subrange(0, k as int));
            }
            if self.entries[k].0 == *name {
                return Some(self.entries[k].1.handle_copy());
            }
            i = k;
        }
        None
    }
}

pub open spec fn handle_index(v: ValueRef) -> int {
    match v {
        ValueRef::Function(k) => k as int,
        _ => -1,
    }
}

/// The module begins with the activate glue, the yield glue, then the glue
/// of each upcall arity in increasing order.
pub open spec fn glue_layout(fs: Seq<Function>) -> bool {
    &&& fs.len() >= N_UPCALL_GLUES + 2
    &&& fs[0].name@ == spec_activate_glue_name()
    &&& spec_glue_type(fs[0].ty)
    &&& fs[1].name@ == spec_yield_glue_name()
    &&& spec_glue_type(fs[1].ty)
    &&& forall|j: int|
        2 <= j < N_UPCALL_GLUES + 2 ==> {
            &&& (#[trigger] fs[j]).name@ == spec_upcall_glue_name((j - 2) as nat)
            &&& spec_upcall_glue_type(fs[j].ty, (j - 2) as nat)
        }
}

/// State shared by the translation of a whole crate, with the qualified path
/// of the item being translated.
pub struct TransCtxt {
    pub llmod: Module,
    pub upcalls: UpcallCache,
    pub glues: GlueFns,
    pub path: String,
}

impl TransCtxt {
    /// The module starts with the glue table, and every cached upcall names a
    /// function of the module that bears its name.
    pub open spec fn wf(&self) -> bool {
        let fs = self.llmod.functions@;
        &&& glue_layout(fs)
        &&& self.glues.activate_glue == ValueRef::Function(0)
        &&& self.glues.yield_glue == ValueRef::Function(1)
        &&& self.glues.upcall_glues@.len() == N_UPCALL_GLUES
        &&& forall|i: int|
            0 <= i < N_UPCALL_GLUES ==> #[trigger] self.glues.upcall_glues@[i] == ValueRef::Function(
                (i + 2) as usize,
            )
        &&& forall|i: int|
            0 <= i < self.upcalls.entries@.len() ==> {
                let e = #[trigger] self.upcalls.entries@[i];
                &&& e.1 is Function
                &&& 0 <= handle_index(e.1) < fs.len()
                &&& fs[handle_index(e.1)].name@ == e.0@
            }
    }

    /// The logging upcall, once cached, has arity one.
    pub open spec fn log_upcall_ok(&self) -> bool {
        match spec_lookup(self.upcalls.entries@, log_upcall_name()) {
            Some(v) => spec_upcall_type(self.llmod.functions@[handle_index(v)].ty, 1),
            None => true,
        }
    }

    /// Well formed, with every function after the glue table shaped.
    pub open spec fn ready(&self) -> bool {
        &&& self.wf()
        &&& self.log_upcall_ok()
        &&& fns_shaped(self.llmod.functions@)
    }

    pub open spec fn state(&self) -> TransState {
        TransState {
            decls: fn_names(self.llmod.functions@),
            defined: defined_names(self.llmod.functions@),
            upcalls: cached_names(self.upcalls.entries@),
        }
    }
}

/// `new` is `old` with functions added at its end, none with a body.
pub open spec fn grows(old: Seq<Function>, new: Seq<Function>) -> bool {
    &&& new.len() >= old.len()
    &&& new.subrange(0, old.len() as int) == old
    &&& forall|j: int| old.len() <= j < new.len() ==> (#[trigger] new[j]).blocks@.len() == 0
}

/// A function type of an upcall, of any arity.
pub open spec fn is_upcall_type(t: TypeRef) -> bool {
    match t {
        TypeRef::Fn(ins, _) => ins@.len() >= 1 && spec_upcall_type(t, (ins@.len() - 1) as nat),
        _ => false,
    }
}

/// `inst` calls the glue of arity one with the task pointer of function `k`,
/// then the handle, cast to an integer, of a function of `fs` that is the
/// logging upcall of arity one, then an integer constant.
pub open spec fn log_call(inst: Inst, k: int, fs: Seq<Function>) -> bool {
    match inst {
        Inst::Call { callee, args } => {
            &&& callee == ValueRef::Function(3)
            &&& args@.len() == 3
            &&& args@[0] == (ValueRef::Param { func: k as usize, index: 1 })
            &&& match args@[1] {
                ValueRef::PtrCast(h, t) => t == TypeRef::Int && match *h {
                    ValueRef::Function(m) => {
                        &&& m < fs.len()
                        &&& fs[m as int].name@ == log_upcall_name()
                        &&& spec_upcall_type(fs[m as int].ty, 1)
                    },
                    _ => false,
                },
                _ => false,
            }
            &&& args@[2] matches ValueRef::ConstInt(TypeRef::Int, _)
        },
        _ => false,
    }
}

/// Function `k` of `fs` is an upcall or a translated function. A translated
/// function has the item type and, once defined, one block of logging calls
/// closed by a return.
pub open spec fn fn_shaped(fs: Seq<Function>, k: int) -> bool {
    let f = fs[k];
    &&& f.call_conv == CallConv::C
    &&& if f.blocks@.len() == 0 {
        is_upcall_type(f.ty) || spec_item_fn_type(f.ty)
    } else {
        &&& spec_item_fn_type(f.ty)
        &&& f.blocks@.len() == 1
        &&& f.blocks@[0].insts@.len() >= 1
        &&& f.blocks@[0].insts@.last() == Inst::RetVoid
        &&& forall|j: int|
            0 <= j < f.blocks@[0].insts@.len() - 1 ==> log_call(#[trigger] f.blocks@[0].insts@[j], k, fs)
    }
}

/// Every function after the glue table is shaped.
pub open spec fn fns_shaped(fs: Seq<Function>) -> bool {
    forall|k: int| N_UPCALL_GLUES + 2 <= k < fs.len() ==> #[trigger] fn_shaped(fs, k)
}

proof fn lemma_shaped_transfer(a: Seq<Function>, b: Seq<Function>)
    requires
        fns_shaped(a),
        b.len() >= a.len(),
        forall|m: int| 0 <= m < a.len() ==> b[m].name == a[m].name && b[m].ty == a[m].ty,
        forall|k: int|
            N_UPCALL_GLUES + 2 <= k < b.len() ==> (k < a.len() && b[k] == a[k]) || fn_shaped(b, k),
    ensures
        fns_shaped(b),
{
    assert forall|k: int| N_UPCALL_GLUES + 2 <= k < b.len() implies #[trigger] fn_shaped(b, k) by {
        if k < a.len() && b[k] == a[k] {
            assert(fn_shaped(a, k));
            let f = b[k];
            if f.blocks@.len() > 0 {
                assert forall|j: int| 0 <= j < f.blocks@[0].insts@.len() - 1 implies log_call(
                    #[trigger] f.blocks@[0].insts@[j],
                    k,
                    b,
                ) by {
                    assert(log_call(a[k].blocks@[0].insts@[j], k, a));
                }
            }
        }
    }
}

/// The translation went on from `old` to `new` adding declarations only.
pub open spec fn extends(old: TransCtxt, new: TransCtxt) -> bool {
    &&& new.wf()
    &&& new.glues == old.glues
    &&& new.path == old.path
    &&& new.llmod.name == old.llmod.name
    &&& new.llmod.inline_asm == old.llmod.inline_asm
    &&& grows(old.llmod.functions@, new.llmod.functions@)
}

pub proof fn lemma_defined_names_none(s: Seq<Function>)
    requires
        forall|j: int| 0 <= j < s.len() ==> (#[trigger] s[j]).blocks@.len() == 0,
    ensures
        defined_names(s) == Seq::<Seq<char>>::empty(),
    decreases s.len(),
{
    if s.len() > 0 {
        lemma_defined_names_none(s.drop_last());
    }
}

pub proof fn lemma_grows_defined(a: Seq<Function>, b: Seq<Function>)
    requires
        grows(a, b),
    ensures
        defined_names(b) == defined_names(a),
{
    let tail = b.subrange(a.len() as int, b.len() as int);
    assert(b =~= a + tail);
    assert forall|j: int| 0 <= j < tail.len() implies (#[trigger] tail[j]).blocks@.len() == 0 by {
        assert(tail[j] == b[j + a.len()]);
    }
    lemma_defined_names_none(tail);
    lemma_defined_names_append(a, tail);
    assert(defined_names(a) + Seq::<Seq<char>>::empty() =~= defined_names(a));
}

/// The handle that the upcall `name` resolves to: the cached one, or else
/// that of the function about to be declared.
pub open spec fn spec_upcall_handle(cx: TransCtxt, name: Seq<char>) -> ValueRef {
    match spec_lookup(cx.upcalls.entries@, name) {
        Some(v) => v,
        None => ValueRef::Function(cx.llmod.functions@.len() as usize),
    }
}

/// The effect of requesting upcall `name` of arity `n` on the context.
pub open spec fn upcall_requested(old: TransCtxt, new: TransCtxt, name: Seq<char>, n: nat) -> bool {
    &&& extends(old, new)
    &&& new.state() == upcall_effect(old.state(), name)
    &&& spec_lookup(new.upcalls.entries@, name) == Some(spec_upcall_handle(old, name))
    &&& spec_lookup(old.upcalls.entries@, name) is Some ==> new == old
    &&& spec_lookup(old.upcalls.entries@, name) is None ==> {
        &&& declared(old.llmod, new.llmod, name, ValueRef::Function(old.llmod.functions@.len() as usize))
        &&& spec_upcall_type(new.llmod.functions@.last().ty, n)
        &&& new.upcalls.entries@.drop_last() == old.upcalls.entries@
        &&& new.upcalls.entries@.last().0@ == name
        &&& new.upcalls.entries@.last().1 == spec_upcall_handle(old, name)
    }
}

/// The handle of upcall `name`, declared with `n_args` integer arguments on
/// its first request; later requests return it whatever their arity.
pub fn get_upcall(cx: &mut TransCtxt, name: &String, n_args: usize) -> (r: ValueRef)
    requires
        old(cx).wf(),
    ensures
        upcall_requested(*old(cx), *final(cx), name@, n_args as nat),
        r == spec_upcall_handle(*old(cx), name@),
{
    proof {
        assert forall|i: int| 0 <= i < cx.upcalls.entries@.len() implies (
        #[trigger] cx.upcalls.entries@[i]).1.is_handle() by {}
    }
    match cx.upcalls.find(name) {
        Some(f) => {
            proof {
                let i = lemma_lookup_index(cx.upcalls.entries@, name@);
                assert(cx.upcalls.entries@[i].1 == f);
                assert(cx.llmod.functions@.subrange(0, cx.llmod.functions@.len() as int) =~= cx.llmod.functions@);
            }
            f
        },
        None => {
            let ghost old_fs = cx.llmod.functions@;
            let ghost old_e = cx.upcalls.entries@;
            let mut inputs = vec![T_ptr(T_task())];
            let mut rest = ints(n_args);
            inputs.append(&mut rest);
            let output = T_nil();
            let f = decl_cdecl_fn(&mut cx.llmod, name.as_str(), inputs, output);
            cx.upcalls.entries.push((name.clone(), f.handle_copy()));
            proof {
                let fs = cx.llmod.functions@;
                let e = cx.upcalls.entries@;
                assert(fs.drop_last() == old_fs);
                assert forall|j: int| 0 <= j < old_fs.len() implies fs[j] == old_fs[j] by {
                    assert(fs.drop_last()[j] == fs[j]);
                }
                assert(fs.subrange(0, old_fs.len() as int) =~= old_fs);
                assert(e.drop_last() =~= old_e);
                assert forall|i: int| 0 <= i < e.len() implies {
                    let x = #[trigger] e[i];
                    &&& x.1 is Function
                    &&& 0 <= handle_index(x.1) < fs.len()
                    &&& fs[handle_index(x.1)].name@ == x.0@
                } by {
                    if i < old_e.len() {
                        assert(e[i] == old_e[i]);
                        assert(old_e[i] == old(cx).upcalls.entries@[i]);
                        let k = handle_index(old_e[i].1);
                        assert(fs[k] == old_fs[k]);
                    } else {
                        assert(e[i] == e.last());
                        assert(fs[old_fs.len() as int] == fs.last());
                    }
                }
                assert(fn_names(fs) =~= fn_names(old_fs).push(name@));
                assert(cached_names(e) =~= cached_names(old_e).insert(name@)) by {
                    assert forall|k: Seq<char>| #[trigger] cached_names(e).contains(k)
                        == cached_names(old_e).insert(name@).contains(k) by {
                        if k != name@ {
                            assert(spec_lookup(e, k) == spec_lookup(old_e, k));
                        }
                    }
                }
                assert(!cached_names(old_e).contains(name@));
                assert(e.drop_last() == old_e);
            }
            f
        },
    }
}


/// The function being translated and its two parameters.
pub struct FnCtxt {
    pub llfn: usize,
    pub lloutptr: ValueRef,
    pub lltaskptr: ValueRef,
}

/// How a block is closed once its statements are translated.
pub enum Terminator {
    /// Return without a value.
    Default,
}

/// The block being translated and the builder that emits into it.
pub struct BlockCtxt {
    pub llbb: usize,
    pub build: Builder,
    pub term: Terminator,
    pub fcx: FnCtxt,
}

impl FnCtxt {
    pub open spec fn wf(&self) -> bool {
        &&& self.lloutptr == (ValueRef::Param { func: self.llfn, index: 0 })
        &&& self.lltaskptr == (ValueRef::Param { func: self.llfn, index: 1 })
    }
}

impl BlockCtxt {
    pub open spec fn wf(&self) -> bool {
        &&& self.fcx.wf()
        &&& self.build.func == self.fcx.llfn
        &&& self.build.block == self.llbb
    }
}

/// `new` is `old` with instructions emitted at the end of its block.
pub open spec fn emitted(old: BlockCtxt, new: BlockCtxt) -> bool {
    &&& new.llbb == old.llbb
    &&& new.term == old.term
    &&& new.fcx == old.fcx
    &&& new.build.func == old.build.func
    &&& new.build.block == old.build.block
    &&& new.build.insts@.len() >= old.build.insts@.len()
    &&& new.build.insts@.subrange(0, old.build.insts@.len() as int) == old.build.insts@
}

/// `inst` calls the glue for arity `args.len()` with the task pointer, the
/// upcall's handle cast to an integer, then `args`.
pub open spec fn spec_upcall_call(
    inst: Inst,
    glues: GlueFns,
    task: ValueRef,
    upcall: ValueRef,
    args: Seq<ValueRef>,
) -> bool {
    match inst {
        Inst::Call { callee, args: a } => {
            &&& callee == glues.upcall_glues@[args.len() as int]
            &&& a@ == seq![task, ValueRef::PtrCast(Box::new(upcall), TypeRef::Int)] + args
        },
        _ => false,
    }
}

/// `inst` is the call that statement `s` translates to, with `upcall` the
/// handle of the logging upcall.
pub open spec fn stmt_call(inst: Inst, s: Stmt, glues: GlueFns, task: ValueRef, upcall: ValueRef) -> bool {
    match s {
        Stmt::Log(Atom::Lit(Lit::Int(i))) => spec_upcall_call(
            inst,
            glues,
            task,
            upcall,
            seq![ValueRef::ConstInt(TypeRef::Int, i)],
        ),
        _ => false,
    }
}

/// Calls upcall `name` with `args` through the glue of that arity.
pub fn trans_upcall(cx: &mut TransCtxt, bcx: &mut BlockCtxt, name: &String, args: Vec<ValueRef>) -> (r:
    ValueRef)
    requires
        old(cx).wf(),
        old(bcx).wf(),
        args@.len() < N_UPCALL_GLUES,
    ensures
        upcall_requested(*old(cx), *final(cx), name@, args@.len()),
        emitted(*old(bcx), *final(bcx)),
        final(bcx).build.insts@.len() == old(bcx).build.insts@.len() + 1,
        spec_upcall_call(
            final(bcx).build.insts@.last(),
            old(cx).glues,
            old(bcx).fcx.lltaskptr,
            spec_upcall_handle(*old(cx), name@),
            args@,
        ),
        r == (ValueRef::Inst {
            func: old(bcx).build.func,
            block: old(bcx).build.block,
            inst: old(bcx).build.insts@.len() as usize,
        }),
{
    let n = args.len();
    let llupcall = get_upcall(cx, name, n);
    let llupcall = const_pointer_cast(llupcall, T_int());
    let llglue = cx.glues.upcall_glues[n].handle_copy();
    let mut call_args = vec![bcx.fcx.lltaskptr.handle_copy(), llupcall];
    let mut rest = args;
    call_args.append(&mut rest);
    let r = bcx.build.call(llglue, call_args);
    proof {
        assert(bcx.build.insts@.subrange(0, old(bcx).build.insts@.len() as int) =~= old(bcx).build.insts@);
    }
    r
}

/// Translates `log a`: only an integer literal can be logged.
pub fn trans_log(cx: &mut TransCtxt, bcx: &mut BlockCtxt, a: &Atom) -> (r: Result<(), TransError>)
    requires
        old(cx).wf(),
        old(bcx).wf(),
    ensures
        r == match stmt_error(Stmt::Log(*a)) {
            None => Ok::<(), TransError>(()),
            Some(c) => Err(TransError::Unimplemented(c)),
        },
        r is Err ==> *final(cx) == *old(cx) && *final(bcx) == *old(bcx),
        r is Ok ==> {
            &&& upcall_requested(*old(cx), *final(cx), log_upcall_name(), 1)
            &&& emitted(*old(bcx), *final(bcx))
            &&& final(bcx).build.insts@.len() == old(bcx).build.insts@.len() + 1
        },
        match *a {
            Atom::Lit(Lit::Int(i)) => spec_upcall_call(
                final(bcx).build.insts@.last(),
                old(cx).glues,
                old(bcx).fcx.lltaskptr,
                spec_upcall_handle(*old(cx), log_upcall_name()),
                seq![ValueRef::ConstInt(TypeRef::Int, i)],
            ),
            _ => true,
        },
{
    match a {
        Atom::Lit(lit) => match lit {
            Lit::Int(i) => {
                let name = String::from_str("upcall_log_int");
                proof {
                    reveal_strlit("upcall_log_int");
                }
                let args = vec![C_int(*i)];
                proof {
                    assert(args@ =~= seq![ValueRef::ConstInt(TypeRef::Int, *i)]);
                }
                trans_upcall(cx, bcx, &name, args);
                Ok(())
            },
            _ => Err(TransError::Unimplemented(Construct::LiteralVariant)),
        },
        _ => Err(TransError::Unimplemented(Construct::AtomVariant)),
    }
}

/// Translates one statement: only log statements are covered.
pub fn trans_stmt(cx: &mut TransCtxt, bcx: &mut BlockCtxt, s: &Stmt) -> (r: Result<(), TransError>)
    requires
        old(cx).wf(),
        old(bcx).wf(),
    ensures
        r == match stmt_error(*s) {
            None => Ok::<(), TransError>(()),
            Some(c) => Err(TransError::Unimplemented(c)),
        },
        r is Err ==> *final(cx) == *old(cx) && *final(bcx) == *old(bcx),
        r is Ok ==> {
            &&& extends(*old(cx), *final(cx))
            &&& final(cx).state() == stmt_effect(old(cx).state(), *s)
            &&& emitted(*old(bcx), *final(bcx))
            &&& final(bcx).build.insts@.len() == old(bcx).build.insts@.len() + 1
            &&& spec_lookup(final(cx).upcalls.entries@, log_upcall_name()) == Some(
                spec_upcall_handle(*old(cx), log_upcall_name()),
            )
            &&& stmt_call(
                final(bcx).build.insts@.last(),
                *s,
                old(cx).glues,
                old(bcx).fcx.lltaskptr,
                spec_upcall_handle(*old(cx), log_upcall_name()),
            )
        },
        r is Ok && old(cx).ready() ==> final(cx).ready(),
{
    match s {
        Stmt::Log(a) => {
            let r = trans_log(cx, bcx, a);
            proof {
                if r is Ok && old(cx).ready() && spec_lookup(old(cx).upcalls.entries@, log_upcall_name()) is None {
                    let a0 = old(cx).llmod.functions@;
                    let b0 = cx.llmod.functions@;
                    assert forall|m: int| 0 <= m < a0.len() implies b0[m] == a0[m] by {
                        assert(b0.drop_last()[m] == b0[m]);
                    }
                    assert(fn_shaped(b0, a0.len() as int));
                    lemma_shaped_transfer(a0, b0);
                    assert(cx.upcalls.entries@.last().0@ == log_upcall_name());
                    assert(spec_lookup(cx.upcalls.entries@, log_upcall_name()) == Some(
                        ValueRef::Function(a0.len() as usize),
                    ));
                }
            }
            r
        },
        _ => Err(TransError::Unimplemented(Construct::StmtVariant)),
    }
}


pub fn default_terminate(fcx: &FnCtxt, build: &mut Builder)
    ensures
        final(build).func == old(build).func,
        final(build).block == old(build).block,
        final(build).insts@ == old(build).insts@.push(Inst::RetVoid),
{
    build.ret_void();
}

pub open spec fn result_of(e: Option<Construct>) -> Result<(), TransError> {
    match e {
        None => Ok(()),
        Some(c) => Err(TransError::Unimplemented(c)),
    }
}

proof fn lemma_stmts_error_prefix(b: Seq<Stmt>, i: int)
    requires
        0 <= i <= b.len(),
        stmts_error(b.subrange(0, i)) is Some,
    ensures
        stmts_error(b) == stmts_error(b.subrange(0, i)),
    decreases b.len(),
{
    if i == b.len() {
        assert(b.subrange(0, i) =~= b);
    } else {
        assert(b.drop_last().subrange(0, i) =~= b.subrange(0, i));
        lemma_stmts_error_prefix(b.drop_last(), i);
    }
}

proof fn lemma_grows_trans(a: Seq<Function>, b: Seq<Function>, c: Seq<Function>)
    requires
        grows(a, b),
        grows(b, c),
    ensures
        grows(a, c),
{
    assert forall|j: int| 0 <= j < a.len() implies c[j] == a[j] by {
        assert(c.subrange(0, b.len() as int)[j] == c[j]);
        assert(b.subrange(0, a.len() as int)[j] == b[j]);
    }
    assert(c.subrange(0, a.len() as int) =~= a);
    assert forall|j: int| a.len() <= j < c.len() implies (#[trigger] c[j]).blocks@.len() == 0 by {
        if j < b.len() {
            assert(c.subrange(0, b.len() as int)[j] == c[j]);
        }
    }
}

/// `insts` holds the call of each statement of `b` in order, then a return.
pub open spec fn block_matches(
    insts: Seq<Inst>,
    b: Seq<Stmt>,
    glues: GlueFns,
    task: ValueRef,
    upcall: ValueRef,
) -> bool {
    &&& insts.len() == b.len() + 1
    &&& forall|j: int| 0 <= j < b.len() ==> stmt_call(#[trigger] insts[j], b[j], glues, task, upcall)
    &&& insts.last() == Inst::RetVoid
}

/// Translates block `b` into a new block at the end of the function, then
/// closes it with `term`.
pub fn trans_block(cx: &mut TransCtxt, fcx: &FnCtxt, b: &Vec<Stmt>, term: Terminator) -> (r: Result<
    (),
    TransError,
>)
    requires
        old(cx).wf(),
        fcx.wf(),
        N_UPCALL_GLUES + 2 <= fcx.llfn < old(cx).llmod.functions@.len(),
    ensures
        r == result_of(stmts_error(b@)),
        r is Ok && old(cx).ready() && spec_item_fn_type(old(cx).llmod.functions@[fcx.llfn as int].ty)
            && old(cx).llmod.functions@[fcx.llfn as int].blocks@.len() == 0 ==> final(cx).ready(),
        r is Err ==> {
            &&& final(cx).llmod.functions@.len() >= old(cx).llmod.functions@.len()
            &&& final(cx).llmod.functions@[fcx.llfn as int] == old(cx).llmod.functions@[fcx.llfn as int]
        },
        r is Ok ==> {
            let fs0 = old(cx).llmod.functions@;
            let fs = final(cx).llmod.functions@;
            let f = fcx.llfn as int;
            let st = stmts_effect(old(cx).state(), b@);
            &&& final(cx).wf()
            &&& final(cx).glues == old(cx).glues
            &&& final(cx).path == old(cx).path
            &&& final(cx).llmod.name == old(cx).llmod.name
            &&& final(cx).llmod.inline_asm == old(cx).llmod.inline_asm
            &&& fs.len() >= fs0.len()
            &&& forall|j: int| 0 <= j < fs0.len() && j != f ==> fs[j] == fs0[j]
            &&& forall|j: int| fs0.len() <= j < fs.len() ==> (#[trigger] fs[j]).blocks@.len() == 0
            &&& fs[f].name == fs0[f].name
            &&& fs[f].ty == fs0[f].ty
            &&& fs[f].call_conv == fs0[f].call_conv
            &&& fs[f].blocks@.len() == fs0[f].blocks@.len() + 1
            &&& fs[f].blocks@.drop_last() == fs0[f].blocks@
            &&& block_matches(
                fs[f].blocks@.last().insts@,
                b@,
                old(cx).glues,
                fcx.lltaskptr,
                spec_lookup(final(cx).upcalls.entries@, log_upcall_name())->0,
            )
            &&& fn_names(fs) == st.decls
            &&& cached_names(final(cx).upcalls.entries@) == st.upcalls
        },
{
    let llbb = cx.llmod.functions[fcx.llfn].blocks.len();
    let build = Builder::new(fcx.llfn, llbb);
    let fcx2 = FnCtxt {
        llfn: fcx.llfn,
        lloutptr: fcx.lloutptr.handle_copy(),
        lltaskptr: fcx.lltaskptr.handle_copy(),
    };
    let mut bcx = BlockCtxt { llbb, build, term, fcx: fcx2 };
    let ghost cx0 = *cx;
    let ghost bcx0 = bcx;
    let mut i: usize = 0;
    proof {
        assert(b@.subrange(0, 0) =~= Seq::<Stmt>::empty());
        assert(cx.llmod.functions@.subrange(0, cx.llmod.functions@.len() as int) =~= cx.llmod.functions@);
        assert(bcx.build.insts@.subrange(0, 0) =~= bcx0.build.insts@);
    }
    while i < b.len()
        invariant
            i <= b@.len(),
            cx0 == *old(cx),
            cx.wf(),
            extends(cx0, *cx),
            cx.state() == stmts_effect(cx0.state(), b@.subrange(0, i as int)),
            stmts_error(b@.subrange(0, i as int)) is None,
            bcx.wf(),
            emitted(bcx0, bcx),
            bcx.llbb == llbb,
            bcx.fcx.llfn == fcx.llfn,
            bcx.fcx.lltaskptr == fcx.lltaskptr,
            bcx.build.insts@.len() == i,
            N_UPCALL_GLUES + 2 <= fcx.llfn < cx0.llmod.functions@.len(),
            cx0.ready() ==> cx.ready(),
            cx.llmod.functions@[fcx.llfn as int] == cx0.llmod.functions@[fcx.llfn as int],
            i > 0 ==> spec_lookup(cx.upcalls.entries@, log_upcall_name()) is Some,
            forall|j: int|
                0 <= j < i ==> stmt_call(
                    #[trigger] bcx.build.insts@[j],
                    b@[j],
                    cx0.glues,
                    fcx.lltaskptr,
                    spec_lookup(cx.upcalls.entries@, log_upcall_name())->0,
                ),
        decreases b@.len() - i,
    {
        let ghost cx1 = *cx;
        let ghost bcx1 = bcx;
        let res = trans_stmt(cx, &mut bcx, &b[i]);
        proof {
            assert(b@.subrange(0, i + 1).drop_last() =~= b@.subrange(0, i as int));
            assert(b@.subrange(0, i + 1).last() == b@[i as int]);
        }
        match res {
            Err(e) => {
                proof {
                    lemma_stmts_error_prefix(b@, i + 1);
                }
                return Err(e);
            },
            Ok(()) => {},
        }
        proof {
            lemma_grows_trans(cx0.llmod.functions@, cx1.llmod.functions@, cx.llmod.functions@);
            assert forall|j: int| 0 <= j < bcx0.build.insts@.len() implies bcx.build.insts@[j] == bcx0.build.insts@[j] by {
                assert(bcx.build.insts@.subrange(0, bcx1.build.insts@.len() as int)[j] == bcx.build.insts@[j]);
                assert(bcx1.build.insts@.subrange(0, bcx0.build.insts@.len() as int)[j] == bcx1.build.insts@[j]);
            }
            assert(bcx.build.insts@.subrange(0, bcx0.build.insts@.len() as int) =~= bcx0.build.insts@);
            assert(cx1.llmod.functions@.subrange(0, cx0.llmod.functions@.len() as int)[fcx.llfn as int]
                == cx1.llmod.functions@[fcx.llfn as int]);
            assert(fcx.llfn < cx1.llmod.functions@.len());
            assert(cx.llmod.functions@.subrange(0, cx1.llmod.functions@.len() as int)[fcx.llfn as int]
                == cx.llmod.functions@[fcx.llfn as int]);
            assert forall|j: int| 0 <= j < i + 1 implies stmt_call(
                #[trigger] bcx.build.insts@[j],
                b@[j],
                cx0.glues,
                fcx.lltaskptr,
                spec_lookup(cx.upcalls.entries@, log_upcall_name())->0,
            ) by {
                if j < i {
                    assert(bcx.build.insts@.subrange(0, bcx1.build.insts@.len() as int)[j] == bcx.build.insts@[j]);
                    assert(bcx1.build.insts@[j] == bcx.build.insts@[j]);
                }
            }
        }
        i = i + 1;
    }
    proof {
        assert(b@.subrange(0, b@.len() as int) =~= b@);
    }
    let ghost pre = bcx.build.insts@;
    match bcx.term {
        Terminator::Default => default_terminate(&bcx.fcx, &mut bcx.build),
    }
    proof {
        assert forall|j: int| 0 <= j < b@.len() implies bcx.build.insts@[j] == pre[j] by {}
    }
    let bb = BasicBlock { name: String::new(), insts: bcx.build.insts };
    let ghost fs1 = cx.llmod.functions@;
    let ghost cx_pre = *cx;
    cx.llmod.append_block(fcx.llfn, bb);
    proof {
        let fs = cx.llmod.functions@;
        let fs0 = cx0.llmod.functions@;
        assert forall|j: int| 0 <= j < fs0.len() implies fs1[j] == fs0[j] by {
            assert(fs1.subrange(0, fs0.len() as int)[j] == fs1[j]);
        }
        assert forall|j: int| 0 <= j < fs.len() && j != fcx.llfn implies fs[j] == fs1[j] by {}
        assert(fs[fcx.llfn as int].blocks@.drop_last() =~= fs1[fcx.llfn as int].blocks@);
        assert(fn_names(fs) =~= fn_names(fs1)) by {
            assert forall|j: int| 0 <= j < fs.len() implies fs[j].name == fs1[j].name by {}
        }
        let e = cx.upcalls.entries@;
        assert forall|i: int| 0 <= i < e.len() implies {
            let x = #[trigger] e[i];
            &&& x.1 is Function
            &&& 0 <= handle_index(x.1) < fs.len()
            &&& fs[handle_index(x.1)].name@ == x.0@
        } by {
            let k = handle_index(e[i].1);
            assert(fs[k].name == fs1[k].name);
        }
        assert forall|j: int| 2 <= j < N_UPCALL_GLUES + 2 implies fs[j] == fs1[j] by {}
        let f = fcx.llfn as int;
        if cx0.ready() && spec_item_fn_type(fs0[f].ty) && fs0[f].blocks@.len() == 0 {
            assert forall|m: int| 0 <= m < fs1.len() implies fs[m].name == fs1[m].name && fs[m].ty
                == fs1[m].ty by {}
            let h = spec_lookup(e, log_upcall_name())->0;
            if b@.len() > 0 {
                let idx = lemma_lookup_index(e, log_upcall_name());
                assert(e[idx].1 == h);
                assert(h is Function);
            }
            assert(cx_pre.ready());
            if spec_lookup(e, log_upcall_name()) is Some {
                let idx = lemma_lookup_index(e, log_upcall_name());
                assert(e[idx] == cx_pre.upcalls.entries@[idx]);
                let m = handle_index(e[idx].1);
                assert(fs[m].ty == fs1[m].ty);
            }
            assert(cx.log_upcall_ok());
            assert(fn_shaped(fs0, f));
            let insts = fs[f].blocks@[0].insts@;
            assert(fs[f].blocks@[0] == fs[f].blocks@.last());
            assert(cx.glues.upcall_glues@[1] == ValueRef::Function(3));
            assert forall|j: int| 0 <= j < insts.len() - 1 implies log_call(#[trigger] insts[j], f, fs) by {
                assert(stmt_call(insts[j], b@[j], cx0.glues, fcx.lltaskptr, h));
            }
            assert(fn_shaped(fs, f));
            lemma_shaped_transfer(fs1, fs);
        }
    }
    Ok(())
}


/// The translation went on from `old` to `new`, keeping the glue table, the
/// path and the module's own name and text.
pub open spec fn continues(old: TransCtxt, new: TransCtxt) -> bool {
    &&& new.ready()
    &&& new.glues == old.glues
    &&& new.path == old.path
    &&& new.llmod.name == old.llmod.name
    &&& new.llmod.inline_asm == old.llmod.inline_asm
}

/// Declares the function at the current path, with a result slot and a task
/// pointer as parameters, and translates its body into its one block.
pub fn trans_fn(cx: &mut TransCtxt, f: &FnDef) -> (r: Result<(), TransError>)
    requires
        old(cx).ready(),
    ensures
        r == result_of(stmts_error(f.body@)),
        r is Ok ==> {
            let k = old(cx).llmod.functions@.len() as int;
            &&& continues(*old(cx), *final(cx))
            &&& final(cx).state() == fn_effect(old(cx).state(), old(cx).path@, f.body@)
            &&& final(cx).llmod.functions@[k].name@ == old(cx).path@
            &&& spec_item_fn_type(final(cx).llmod.functions@[k].ty)
            &&& final(cx).llmod.functions@[k].call_conv == CallConv::C
            &&& final(cx).llmod.functions@[k].blocks@.len() == 1
            &&& block_matches(
                final(cx).llmod.functions@[k].blocks@[0].insts@,
                f.body@,
                old(cx).glues,
                ValueRef::Param { func: k as usize, index: 1 },
                spec_lookup(final(cx).upcalls.entries@, log_upcall_name())->0,
            )
        },
{
    let ghost cx0 = *cx;
    let args = vec![T_ptr(T_int()), T_ptr(T_task())];
    let k = cx.llmod.functions.len();
    decl_cdecl_fn(&mut cx.llmod, cx.path.as_str(), args, T_nil());
    let lloutptr = get_param(k, 0);
    let lltaskptr = get_param(k, 1);
    let fcx = FnCtxt { llfn: k, lloutptr, lltaskptr };
    let ghost cx1 = *cx;
    proof {
        let fs0 = cx0.llmod.functions@;
        let fs1 = cx1.llmod.functions@;
        assert forall|j: int| 0 <= j < fs0.len() implies fs1[j] == fs0[j] by {
            assert(fs1.drop_last()[j] == fs1[j]);
        }
        assert(fs1.subrange(0, fs0.len() as int) =~= fs0);
        assert(fn_names(fs1) =~= fn_names(fs0).push(cx0.path@));
        lemma_grows_defined(fs0, fs1);
        assert(fn_shaped(fs1, k as int));
        lemma_shaped_transfer(fs0, fs1);
        let e = cx1.upcalls.entries@;
        if spec_lookup(e, log_upcall_name()) is Some {
            let idx = lemma_lookup_index(e, log_upcall_name());
            assert(e[idx] == cx0.upcalls.entries@[idx]);
            let m = handle_index(e[idx].1);
            assert(fs1[m] == fs0[m]);
        }
        assert(cx1.log_upcall_ok());
        assert(cx1.ready());
        assert(cx1.state() == TransState {
            decls: cx0.state().decls.push(cx0.path@),
            defined: cx0.state().defined,
            upcalls: cx0.state().upcalls,
        });
    }
    let term = Terminator::Default;
    let r = trans_block(cx, &fcx, &f.body, term);
    match r {
        Err(e) => Err(e),
        Ok(()) => {
            proof {
                let fs0 = cx0.llmod.functions@;
                let fs1 = cx1.llmod.functions@;
                let fs = cx.llmod.functions@;
                let kk = k as int;
                let st1 = cx1.state();
                lemma_stmts_effect_defined(st1, f.body@);
                let tail = fs.subrange(kk + 1, fs.len() as int);
                assert forall|j: int| 0 <= j < kk implies fs[j] == fs0[j] by {
                    assert(fs1[j] == fs0[j]);
                }
                assert(fs =~= fs0 + seq![fs[kk]] + tail);
                assert forall|j: int| 0 <= j < tail.len() implies (#[trigger] tail[j]).blocks@.len() == 0 by {
                    assert(tail[j] == fs[kk + 1 + j]);
                }
                lemma_defined_names_none(tail);
                lemma_defined_names_append(fs0 + seq![fs[kk]], tail);
                lemma_defined_names_append(fs0, seq![fs[kk]]);
                let single = seq![fs[kk]];
                assert(single.drop_last() =~= Seq::<Function>::empty());
                assert(single.last() == fs[kk]);
                assert(fs[kk].blocks@.len() > 0);
                assert(defined_names(Seq::<Function>::empty()) == Seq::<Seq<char>>::empty());
                assert(defined_names(single) =~= Seq::<Seq<char>>::empty().push(fs[kk].name@));
                assert(defined_names(seq![fs[kk]]) == seq![fs[kk].name@]);
                assert(defined_names(fs) =~= defined_names(fs0).push(cx0.path@));
                assert(fs[kk].blocks@[0] == fs[kk].blocks@.last());
            }
            Ok(())
        },
    }
}

proof fn lemma_items_error_prefix(s: Seq<(String, Item)>, i: int)
    requires
        0 <= i <= s.len(),
        items_error(s.subrange(0, i)) is Some,
    ensures
        items_error(s) == items_error(s.subrange(0, i)),
    decreases s.len(),
{
    if i == s.len() {
        assert(s.subrange(0, i) =~= s);
    } else {
        let d = s.subrange(0, s.len() - 1);
        assert(d.subrange(0, i) =~= s.subrange(0, i));
        lemma_items_error_prefix(d, i);
    }
}

/// Translates the item `name` under the current path, at the path extended by
/// `"."` and `name`.
pub fn trans_item(cx: &mut TransCtxt, name: &String, item: &Item) -> (r: Result<(), TransError>)
    requires
        old(cx).ready(),
    ensures
        r == result_of(item_error(*item)),
        r is Ok ==> {
            &&& continues(*old(cx), *final(cx))
            &&& final(cx).state() == item_effect(old(cx).state(), old(cx).path@, name@, *item)
        },
        r is Ok ==> match *item {
            Item::Fn(f) => {
                let k = old(cx).llmod.functions@.len() as int;
                let func = final(cx).llmod.functions@[k];
                &&& func.name@ == child_path(old(cx).path@, name@)
                &&& spec_item_fn_type(func.ty)
                &&& func.blocks@.len() == 1
                &&& block_matches(
                    func.blocks@[0].insts@,
                    f.body@,
                    old(cx).glues,
                    ValueRef::Param { func: k as usize, index: 1 },
                    spec_lookup(final(cx).upcalls.entries@, log_upcall_name())->0,
                )
            },
            _ => true,
        },
    decreases item,
{
    let parent = cx.path.clone();
    let mut sub = cx.path.clone();
    sub.append(".");
    sub.append(name.as_str());
    cx.path = sub;
    let r = match item {
        Item::Fn(f) => trans_fn(cx, f),
        Item::Mod(m) => trans_mod(cx, m),
    };
    cx.path = parent;
    r
}

/// Translates the items of `m` in declaration order.
pub fn trans_mod(cx: &mut TransCtxt, m: &Mod) -> (r: Result<(), TransError>)
    requires
        old(cx).ready(),
    ensures
        r == result_of(items_error(m.items@)),
        r is Ok ==> {
            &&& continues(*old(cx), *final(cx))
            &&& final(cx).state() == items_effect(old(cx).state(), old(cx).path@, m.items@)
        },
    decreases m,
{
    let ghost cx0 = *cx;
    let mut i: usize = 0;
    proof {
        assert(m.items@.subrange(0, 0) =~= Seq::<(String, Item)>::empty());
    }
    while i < m.items.len()
        invariant
            i <= m.items@.len(),
            cx0 == *old(cx),
            continues(cx0, *cx),
            cx.state() == items_effect(cx0.state(), cx0.path@, m.items@.subrange(0, i as int)),
            items_error(m.items@.subrange(0, i as int)) is None,
        decreases m.items@.len() - i,
    {
        proof {
            assert(decreases_to!(m => m.items@[i as int].1));
        }
        let res = trans_item(cx, &m.items[i].0, &m.items[i].1);
        proof {
            let p = m.items@.subrange(0, i + 1);
            assert(p.subrange(0, p.len() - 1) =~= m.items@.subrange(0, i as int));
            assert(p[p.len() - 1] == m.items@[i as int]);
        }
        match res {
            Err(e) => {
                proof {
                    lemma_items_error_prefix(m.items@, i + 1);
                }
                return Err(e);
            },
            Ok(()) => {},
        }
        i = i + 1;
    }
    proof {
        assert(m.items@.subrange(0, m.items@.len() as int) =~= m.items@);
    }
    Ok(())
}


/// What translating `krate` gives: the first construct that is not covered,
/// or else a module named after the session, holding `code` as its inline
/// text, the glue table first, then every declaration in translation order.
pub open spec fn crate_translated(
    sess: Session,
    krate: Crate,
    code: Seq<char>,
    r: Result<Module, TransError>,
) -> bool {
    let e = items_error(krate.module.items@);
    let st = items_effect(glue_state(), Seq::empty(), krate.module.items@);
    match r {
        Ok(m) => {
            &&& e is None
            &&& m.name@ == sess.out_name@
            &&& m.inline_asm@ == code
            &&& glue_layout(m.functions@)
            &&& fns_shaped(m.functions@)
            &&& fn_names(m.functions@) == st.decls
            &&& defined_names(m.functions@) == st.defined
        },
        Err(err) => e is Some && err == TransError::Unimplemented(e->0),
    }
}

impl TransCtxt {
    /// The context at the root of a crate: a fresh module named after the
    /// session, holding `code` as its inline text and the glue table, with no
    /// upcall cached yet and an empty path.
    pub fn new(sess: &Session, code: &str) -> (r: TransCtxt)
        ensures
            r.ready(),
            r.state() == glue_state(),
            r.path@ == Seq::<char>::empty(),
            r.llmod.name@ == sess.out_name@,
            r.llmod.inline_asm@ == code@,
    {
        let mut llmod = Module::new(sess.out_name.as_str());
        llmod.set_inline_asm(code);
        let an = activate_glue_name();
        let activate_glue = decl_glue(&mut llmod, an.as_str());
        let yn = yield_glue_name();
        let yield_glue = decl_glue(&mut llmod, yn.as_str());
        let mut upcall_glues: Vec<ValueRef> = Vec::new();
        let mut i: usize = 0;
        proof {
            let fs = llmod.functions@;
            assert(fs[0] == fs.drop_last()[0]);
            assert(fn_names(fs) =~= glue_names().subrange(0, 2));
        }
        while i < N_UPCALL_GLUES
            invariant
                i <= N_UPCALL_GLUES,
                llmod.functions@.len() == i + 2,
                llmod.name@ == sess.out_name@,
                llmod.inline_asm@ == code@,
                llmod.functions@[0].name@ == spec_activate_glue_name(),
                spec_glue_type(llmod.functions@[0].ty),
                llmod.functions@[1].name@ == spec_yield_glue_name(),
                spec_glue_type(llmod.functions@[1].ty),
                forall|j: int|
                    2 <= j < i + 2 ==> {
                        &&& (#[trigger] llmod.functions@[j]).name@ == spec_upcall_glue_name((j - 2) as nat)
                        &&& spec_upcall_glue_type(llmod.functions@[j].ty, (j - 2) as nat)
                    },
                forall|j: int| 0 <= j < i + 2 ==> (#[trigger] llmod.functions@[j]).blocks@.len() == 0,
                activate_glue == ValueRef::Function(0),
                yield_glue == ValueRef::Function(1),
                upcall_glues@.len() == i,
                forall|j: int| 0 <= j < i ==> #[trigger] upcall_glues@[j] == ValueRef::Function((j + 2) as usize),
                fn_names(llmod.functions@) == glue_names().subrange(0, i + 2),
            decreases N_UPCALL_GLUES - i,
        {
            let ghost fs0 = llmod.functions@;
            let g = decl_upcall(&mut llmod, i);
            upcall_glues.push(g);
            proof {
                let fs = llmod.functions@;
                assert forall|j: int| 0 <= j < fs0.len() implies fs[j] == fs0[j] by {
                    assert(fs.drop_last()[j] == fs[j]);
                }
                assert(fn_names(fs) =~= glue_names().subrange(0, i + 3));
            }
            i = i + 1;
        }
        let glues = GlueFns { activate_glue, yield_glue, upcall_glues };
        let cx = TransCtxt { llmod, upcalls: UpcallCache::new(), glues, path: String::new() };
        proof {
            let fs = cx.llmod.functions@;
            assert(glue_names().subrange(0, N_UPCALL_GLUES + 2) =~= glue_names());
            lemma_defined_names_none(fs);
            assert(cached_names(cx.upcalls.entries@) =~= Set::<Seq<char>>::empty());
            assert(cx.state() == glue_state());
        }
        cx
    }
}

/// Translates a whole crate into a fresh module whose inline text is `code`.
pub fn trans_crate(sess: &Session, krate: &Crate, code: &str) -> (r: Result<Module, TransError>)
    ensures
        crate_translated(*sess, *krate, code@, r),
{
    let mut cx = TransCtxt::new(sess, code);
    match trans_mod(&mut cx, &krate.module) {
        Ok(()) => Ok(cx.llmod),
        Err(e) => Err(e),
    }
}

} // verus!
