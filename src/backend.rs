//! An in-memory code-generator module: types, values, functions made of basic
//! blocks, and an instruction builder. Handles are plain values or indices into
//! the module that owns what they refer to.
use vstd::prelude::*;
use vstd::string::StringExecFns;

verus! {

/// A code-generator type.
#[derive(Debug, PartialEq, Eq)]
pub enum TypeRef {
    Void,
    /// The word-sized signed integer type.
    Int,
    Fn(Vec<TypeRef>, Box<TypeRef>),
    Ptr(Box<TypeRef>),
    Struct(Vec<TypeRef>),
    /// A type whose layout is unknown.
    Opaque,
}

/// A code-generator value.
#[derive(Debug, PartialEq, Eq)]
pub enum ValueRef {
    /// The function at this index of the module.
    Function(usize),
    /// Parameter `index` of function `func`.
    Param { func: usize, index: usize },
    /// Result of instruction `inst` of block `block` of function `func`.
    Inst { func: usize, block: usize, inst: usize },
    ConstNull(TypeRef),
    ConstInt(TypeRef, i64),
    /// The bytes and their count; no terminator is added.
    ConstStr(Vec<u8>, usize),
    ConstStruct(Vec<ValueRef>),
    /// A value reinterpreted as another type.
    PtrCast(Box<ValueRef>, TypeRef),
}

#[derive(Clone, Copy, Debug, PartialEq, Eq)]
pub enum CallConv {
    C,
}

#[derive(Debug, PartialEq, Eq)]
pub enum Inst {
    Call { callee: ValueRef, args: Vec<ValueRef> },
    RetVoid,
}

#[derive(Debug, PartialEq, Eq)]
pub struct BasicBlock {
    pub name: String,
    pub insts: Vec<Inst>,
}

/// A function of the module; one without blocks is only declared.
#[derive(Debug, PartialEq, Eq)]
pub struct Function {
    pub name: String,
    pub ty: TypeRef,
    pub call_conv: CallConv,
    pub blocks: Vec<BasicBlock>,
}

#[derive(Debug, PartialEq, Eq)]
pub struct Module {
    pub name: String,
    pub inline_asm: String,
    pub functions: Vec<Function>,
}

/// Emits instructions at the end of one block under construction.
#[derive(Debug, PartialEq, Eq)]
pub struct Builder {
    pub func: usize,
    pub block: usize,
    pub insts: Vec<Inst>,
}

/// Names of a sequence of functions, in order.
pub open spec fn fn_names(fs: Seq<Function>) -> Seq<Seq<char>> {
    fs.map_values(|f: Function| f.name@)
}

/// Names of the functions that have a body, in order.
pub open spec fn defined_names(fs: Seq<Function>) -> Seq<Seq<char>>
    decreases fs.len(),
{
    if fs.len() == 0 {
        Seq::empty()
    } else {
        let init = defined_names(fs.drop_last());
        if fs.last().blocks@.len() > 0 {
            init.push(fs.last().name@)
        } else {
            init
        }
    }
}

/// How many functions of `fs` are called `name`.
pub open spec fn count_named(fs: Seq<Function>, name: Seq<char>) -> nat
    decreases fs.len(),
{
    if fs.len() == 0 {
        0
    } else {
        count_named(fs.drop_last(), name) + if fs.last().name@ == name { 1nat } else { 0nat }
    }
}

pub proof fn lemma_defined_names_append(a: Seq<Function>, b: Seq<Function>)
    ensures
        defined_names(a + b) == defined_names(a) + defined_names(b),
    decreases b.len(),
{
    if b.len() == 0 {
        assert(a + b =~= a);
        assert(defined_names(b) =~= Seq::<Seq<char>>::empty());
    } else {
        assert((a + b).drop_last() =~= a + b.drop_last());
        lemma_defined_names_append(a, b.drop_last());
    }
}

impl Module {
    /// A module with no functions.
    pub fn new(name: &str) -> (r: Module)
        ensures
            r.name@ == name@,
            r.inline_asm@ == Seq::<char>::empty(),
            r.functions@.len() == 0,
    {
        Module { name: String::from_str(name), inline_asm: String::new(), functions: Vec::new() }
    }

    pub fn set_inline_asm(&mut self, code: &str)
        ensures
            final(self).inline_asm@ == code@,
            final(self).name == old(self).name,
            final(self).functions == old(self).functions,
    {
        self.inline_asm = String::from_str(code);
    }

    /// Declares a function without a body and returns its handle.
    pub fn add_function(&mut self, name: &str, ty: TypeRef, cc: CallConv) -> (r: ValueRef)
        ensures
            old(self).functions@.len() <= usize::MAX,
            r == ValueRef::Function(old(self).functions@.len() as usize),
            final(self).functions@.len() == old(self).functions@.len() + 1,
            final(self).functions@.drop_last() == old(self).functions@,
            final(self).functions@.last().name@ == name@,
            final(self).functions@.last().ty == ty,
            final(self).functions@.last().call_conv == cc,
            final(self).functions@.last().blocks@.len() == 0,
            final(self).name == old(self).name,
            final(self).inline_asm == old(self).inline_asm,
    {
        let f = Function { name: String::from_str(name), ty, call_conv: cc, blocks: Vec::new() };
        let idx = self.functions.len();
        self.functions.push(f);
        proof {
            assert(self.functions@.drop_last() =~= old(self).functions@);
        }
        ValueRef::Function(idx)
    }

    /// Adds a finished block at the end of function `f`.
    pub fn append_block(&mut self, f: usize, bb: BasicBlock)
        requires
            f < old(self).functions@.len(),
        ensures
            final(self).functions@.len() == old(self).functions@.len(),
            forall|j: int|
                0 <= j < old(self).functions@.len() && j != f ==> final(self).functions@[j]
                    == old(self).functions@[j],
            final(self).functions@[f as int].name == old(self).functions@[f as int].name,
            final(self).functions@[f as int].ty == old(self).functions@[f as int].ty,
            final(self).functions@[f as int].call_conv == old(self).functions@[f as int].call_conv,
            final(self).functions@[f as int].blocks@ == old(self).functions@[f as int].blocks@.push(bb),
            final(self).name == old(self).name,
            final(self).inline_asm == old(self).inline_asm,
    {
        let mut func = self.functions.remove(f);
        func.blocks.push(bb);
        self.functions.insert(f, func);
    }
}

impl ValueRef {
    /// A function or a parameter: a handle that can be copied freely.
    pub open spec fn is_handle(&self) -> bool {
        self is Function || self is Param
    }

    pub fn handle_copy(&self) -> (r: ValueRef)
        requires
            self.is_handle(),
        ensures
            r == *self,
    {
        match self {
            ValueRef::Function(i) => ValueRef::Function(*i),
            ValueRef::Param { func, index } => ValueRef::Param { func: *func, index: *index },
            _ => ValueRef::Function(0),
        }
    }
}

/// The value `v` reinterpreted as type `t`.
pub fn const_pointer_cast(v: ValueRef, t: TypeRef) -> (r: ValueRef)
    ensures
        r == ValueRef::PtrCast(Box::new(v), t),
{
    ValueRef::PtrCast(Box::new(v), t)
}

/// Parameter `index` of the function `f`.
pub fn get_param(f: usize, index: usize) -> (r: ValueRef)
    ensures
        r == (ValueRef::Param { func: f, index }),
{
    ValueRef::Param { func: f, index }
}

impl Builder {
    /// A builder for block `block` of function `func`, with nothing emitted yet.
    pub fn new(func: usize, block: usize) -> (r: Builder)
        ensures
            r.func == func,
            r.block == block,
            r.insts@.len() == 0,
    {
        Builder { func, block, insts: Vec::new() }
    }

    /// Emits a call and returns the handle of its result.
    pub fn call(&mut self, callee: ValueRef, args: Vec<ValueRef>) -> (r: ValueRef)
        ensures
            final(self).func == old(self).func,
            final(self).block == old(self).block,
            final(self).insts@ == old(self).insts@.push(Inst::Call { callee, args }),
            r == (ValueRef::Inst {
                func: old(self).func,
                block: old(self).block,
                inst: old(self).insts@.len() as usize,
            }),
    {
        let inst = self.insts.len();
        self.insts.push(Inst::Call { callee, args });
        ValueRef::Inst { func: self.func, block: self.block, inst }
    }

    /// Emits a return without a value.
    pub fn ret_void(&mut self)
        ensures
            final(self).func == old(self).func,
            final(self).block == old(self).block,
            final(self).insts@ == old(self).insts@.push(Inst::RetVoid),
    {
        self.insts.push(Inst::RetVoid);
    }
}

} // verus!
