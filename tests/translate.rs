use rustc_trans::abi::{activate_glue_name, push_decimal, upcall_glue_name, yield_glue_name, N_UPCALL_GLUES};
use rustc_trans::ast::{Atom, Crate, FnDef, Item, Lit, Mod, Stmt};
use rustc_trans::backend::{get_param, Builder, CallConv, Inst, Module, TypeRef, ValueRef};
use rustc_trans::session::{Construct, Session, TransError};
use rustc_trans::trans::{
    decl_cdecl_fn, default_terminate, get_upcall, trans_block, trans_crate, trans_upcall, BlockCtxt, FnCtxt, TransCtxt, Terminator,
    C_int, C_null, C_str, C_struct, T_fn, T_int, T_nil, T_ptr, T_task,
};

fn log_int(i: i64) -> Stmt {
    Stmt::Log(Atom::Lit(Lit::Int(i)))
}

fn func(body: Vec<Stmt>) -> Item {
    Item::Fn(FnDef { body })
}

fn module(items: Vec<(&str, Item)>) -> Mod {
    Mod { items: items.into_iter().map(|(n, i)| (n.to_string(), i)).collect() }
}

fn task_ptr() -> TypeRef {
    TypeRef::Ptr(Box::new(TypeRef::Struct(vec![TypeRef::Int, TypeRef::Opaque])))
}

fn translate(m: Mod) -> Result<Module, TransError> {
    trans_crate(&Session::new("rust_out"), &Crate { module: m }, "")
}

fn defined(m: &Module) -> Vec<String> {
    m.functions.iter().filter(|f| !f.blocks.is_empty()).map(|f| f.name.clone()).collect()
}

fn count_named(m: &Module, name: &str) -> usize {
    m.functions.iter().filter(|f| f.name == name).count()
}

#[test]
fn end_to_end_main_logs_42() {
    let sess = Session::new("rust_out");
    let krate = Crate { module: module(vec![("main", func(vec![log_int(42)]))]) };
    let m = trans_crate(&sess, &krate, "target text").unwrap();
    assert_eq!(m.name, "rust_out");
    assert_eq!(m.inline_asm, "target text");
    let glues = N_UPCALL_GLUES + 2;
    assert_eq!(m.functions.len(), glues + 2);
    let main = &m.functions[glues];
    assert_eq!(main.name, ".main");
    assert_eq!(main.call_conv, CallConv::C);
    assert_eq!(main.ty, TypeRef::Fn(vec![TypeRef::Ptr(Box::new(TypeRef::Int)), task_ptr()], Box::new(TypeRef::Void)));
    let upcall = &m.functions[glues + 1];
    assert_eq!(upcall.name, "upcall_log_int");
    assert_eq!(upcall.ty, TypeRef::Fn(vec![task_ptr(), TypeRef::Int], Box::new(TypeRef::Void)));
    assert!(upcall.blocks.is_empty());
    assert_eq!(count_named(&m, "upcall_log_int"), 1);
    assert_eq!(main.blocks.len(), 1);
    let insts = &main.blocks[0].insts;
    assert_eq!(insts.len(), 2);
    assert_eq!(
        insts[0],
        Inst::Call {
            callee: ValueRef::Function(3),
            args: vec![
                ValueRef::Param { func: glues, index: 1 },
                ValueRef::PtrCast(Box::new(ValueRef::Function(glues + 1)), TypeRef::Int),
                ValueRef::ConstInt(TypeRef::Int, 42),
            ],
        }
    );
    assert_eq!(m.functions[3].name, "rust_upcall_1");
    assert_eq!(insts[1], Inst::RetVoid);
}

#[test]
fn nested_items_get_dotted_paths() {
    let inner = module(vec![("b", func(vec![])), ("c", func(vec![log_int(1)]))]);
    let m = translate(module(vec![("a", Item::Mod(inner)), ("d", func(vec![log_int(2)]))])).unwrap();
    assert_eq!(defined(&m), vec![".a.b".to_string(), ".a.c".to_string(), ".d".to_string()]);
    for f in m.functions.iter().filter(|f| !f.blocks.is_empty()) {
        assert_eq!(f.blocks.len(), 1);
    }
    let names: Vec<&str> = m.functions[N_UPCALL_GLUES + 2..].iter().map(|f| f.name.as_str()).collect();
    assert_eq!(names, vec![".a.b", ".a.c", "upcall_log_int", ".d"]);
}

#[test]
fn empty_body_only_returns() {
    let m = translate(module(vec![("f", func(vec![]))])).unwrap();
    let f = &m.functions[N_UPCALL_GLUES + 2];
    assert_eq!(f.blocks[0].insts, vec![Inst::RetVoid]);
    assert_eq!(f.blocks[0].name, "");
}

#[test]
fn upcall_declared_once_across_functions() {
    let m = translate(module(vec![
        ("f", func(vec![log_int(1), log_int(2)])),
        ("g", func(vec![log_int(3)])),
    ]))
    .unwrap();
    assert_eq!(count_named(&m, "upcall_log_int"), 1);
    let idx = m.functions.iter().position(|f| f.name == "upcall_log_int").unwrap();
    let cast = ValueRef::PtrCast(Box::new(ValueRef::Function(idx)), TypeRef::Int);
    for f in m.functions.iter().filter(|f| !f.blocks.is_empty()) {
        for inst in &f.blocks[0].insts {
            if let Inst::Call { args, .. } = inst {
                assert_eq!(args[1], cast);
            }
        }
    }
}

#[test]
fn get_upcall_twice_gives_same_handle() {
    let mut cx = TransCtxt::new(&Session::new("m"), "");
    let before = cx.llmod.functions.len();
    let h1 = get_upcall(&mut cx, &"upcall_foo".to_string(), 2);
    assert_eq!(h1, ValueRef::Function(before));
    assert_eq!(cx.llmod.functions.len(), before + 1);
    let h2 = get_upcall(&mut cx, &"upcall_foo".to_string(), 5);
    assert_eq!(h1, h2);
    assert_eq!(cx.llmod.functions.len(), before + 1);
    assert_eq!(cx.llmod.functions[before].ty, TypeRef::Fn(vec![task_ptr(), TypeRef::Int, TypeRef::Int], Box::new(TypeRef::Void)));
    let h3 = get_upcall(&mut cx, &"upcall_bar".to_string(), 0);
    assert_eq!(h3, ValueRef::Function(before + 1));
    assert_eq!(cx.upcalls.entries.len(), 2);
}

#[test]
fn glue_table_comes_first() {
    let m = translate(module(vec![])).unwrap();
    assert_eq!(m.functions.len(), N_UPCALL_GLUES + 2);
    assert_eq!(m.functions[0].name, "rust_activate_glue");
    assert_eq!(m.functions[1].name, "rust_yield_glue");
    let glue = TypeRef::Fn(vec![task_ptr()], Box::new(TypeRef::Void));
    assert_eq!(m.functions[0].ty, glue);
    assert_eq!(m.functions[1].ty, glue);
    for n in 0..N_UPCALL_GLUES {
        let f = &m.functions[n + 2];
        assert_eq!(f.name, format!("rust_upcall_{}", n));
        let mut ins = vec![task_ptr(), TypeRef::Int];
        ins.extend((0..n).map(|_| TypeRef::Int));
        assert_eq!(f.ty, TypeRef::Fn(ins, Box::new(TypeRef::Int)));
        assert!(f.blocks.is_empty());
    }
    let cx = TransCtxt::new(&Session::new("m"), "");
    assert_eq!(cx.glues.upcall_glues.len(), N_UPCALL_GLUES);
    assert_eq!(cx.glues.activate_glue, ValueRef::Function(0));
    assert_eq!(cx.glues.yield_glue, ValueRef::Function(1));
    assert_eq!(cx.glues.upcall_glues[6], ValueRef::Function(8));
    assert_eq!(cx.path, "");
}

#[test]
fn unsupported_statement_aborts() {
    let r = translate(module(vec![("f", func(vec![log_int(1), Stmt::Ret]))]));
    assert_eq!(r, Err(TransError::Unimplemented(Construct::StmtVariant)));
    let r = translate(module(vec![("f", func(vec![Stmt::Expr(Atom::Lit(Lit::Int(3)))]))]));
    assert_eq!(r, Err(TransError::Unimplemented(Construct::StmtVariant)));
    assert_eq!(Construct::StmtVariant.message(), "stmt variant");
}

#[test]
fn unsupported_atom_aborts() {
    let r = translate(module(vec![("f", func(vec![Stmt::Log(Atom::Name("x".to_string()))]))]));
    assert_eq!(r, Err(TransError::Unimplemented(Construct::AtomVariant)));
    assert_eq!(Construct::AtomVariant.message(), "atom variant in trans_log");
}

#[test]
fn unsupported_literal_aborts() {
    for lit in vec![Lit::Bool(true), Lit::Str("s".to_string()), Lit::Nil] {
        let r = translate(module(vec![("f", func(vec![Stmt::Log(Atom::Lit(lit))]))]));
        assert_eq!(r, Err(TransError::Unimplemented(Construct::LiteralVariant)));
    }
    assert_eq!(Construct::LiteralVariant.message(), "literal variant in trans_log");
}

#[test]
fn first_unsupported_construct_is_reported() {
    let inner = module(vec![("g", func(vec![Stmt::Log(Atom::Lit(Lit::Nil))]))]);
    let r = translate(module(vec![
        ("f", func(vec![log_int(5)])),
        ("m", Item::Mod(inner)),
        ("h", func(vec![Stmt::Ret])),
    ]));
    assert_eq!(r, Err(TransError::Unimplemented(Construct::LiteralVariant)));
}

#[test]
fn translation_is_deterministic() {
    let build = || {
        module(vec![
            ("z", func(vec![log_int(1)])),
            ("a", Item::Mod(module(vec![("y", func(vec![log_int(2)])), ("b", func(vec![]))]))),
        ])
    };
    let m1 = translate(build()).unwrap();
    let m2 = translate(build()).unwrap();
    assert_eq!(m1, m2);
    let names: Vec<&str> = m1.functions[N_UPCALL_GLUES + 2..].iter().map(|f| f.name.as_str()).collect();
    assert_eq!(names, vec![".z", "upcall_log_int", ".a.y", ".a.b"]);
}

#[test]
fn glue_symbol_names() {
    assert_eq!(activate_glue_name(), "rust_activate_glue");
    assert_eq!(yield_glue_name(), "rust_yield_glue");
    assert_eq!(upcall_glue_name(0), "rust_upcall_0");
    assert_eq!(upcall_glue_name(12), "rust_upcall_12");
    let mut s = "n=".to_string();
    push_decimal(&mut s, 1234);
    assert_eq!(s, "n=1234");
    let mut z = String::new();
    push_decimal(&mut z, usize::MAX);
    assert_eq!(z, usize::MAX.to_string());
}

#[test]
fn type_and_constant_builders() {
    assert_eq!(T_task(), TypeRef::Struct(vec![TypeRef::Int, TypeRef::Opaque]));
    assert_eq!(T_ptr(T_int()), TypeRef::Ptr(Box::new(TypeRef::Int)));
    assert_eq!(T_fn(vec![T_int()], T_nil()), TypeRef::Fn(vec![TypeRef::Int], Box::new(TypeRef::Void)));
    assert_eq!(C_int(-7), ValueRef::ConstInt(TypeRef::Int, -7));
    assert_eq!(C_int(i64::MAX), ValueRef::ConstInt(TypeRef::Int, i64::MAX));
    assert_eq!(C_null(T_int()), ValueRef::ConstNull(TypeRef::Int));
    assert_eq!(C_str("hi\u{e9}"), ValueRef::ConstStr(vec![104, 105, 0xc3, 0xa9], 4));
    assert_eq!(C_str(""), ValueRef::ConstStr(vec![], 0));
    assert_eq!(
        C_struct(vec![C_int(1), C_int(2)]),
        ValueRef::ConstStruct(vec![ValueRef::ConstInt(TypeRef::Int, 1), ValueRef::ConstInt(TypeRef::Int, 2)])
    );
}

#[test]
fn upcall_of_arity_two_uses_its_glue() {
    let mut cx = TransCtxt::new(&Session::new("m"), "");
    let k = cx.llmod.functions.len();
    let fcx = FnCtxt { llfn: k, lloutptr: get_param(k, 0), lltaskptr: get_param(k, 1) };
    let mut bcx = BlockCtxt { llbb: 0, build: Builder::new(k, 0), term: Terminator::Default, fcx };
    let r = trans_upcall(&mut cx, &mut bcx, &"upcall_pair".to_string(), vec![C_int(1), C_int(2)]);
    assert_eq!(r, ValueRef::Inst { func: k, block: 0, inst: 0 });
    assert_eq!(
        bcx.build.insts[0],
        Inst::Call {
            callee: ValueRef::Function(4),
            args: vec![
                ValueRef::Param { func: k, index: 1 },
                ValueRef::PtrCast(Box::new(ValueRef::Function(k)), TypeRef::Int),
                ValueRef::ConstInt(TypeRef::Int, 1),
                ValueRef::ConstInt(TypeRef::Int, 2),
            ],
        }
    );
    assert_eq!(cx.llmod.functions[k].name, "upcall_pair");
    let r2 = trans_upcall(&mut cx, &mut bcx, &"upcall_none".to_string(), vec![]);
    assert_eq!(r2, ValueRef::Inst { func: k, block: 0, inst: 1 });
    match &bcx.build.insts[1] {
        Inst::Call { callee, args } => {
            assert_eq!(*callee, ValueRef::Function(2));
            assert_eq!(args.len(), 2);
        }
        _ => panic!("expected a call"),
    }
    default_terminate(&bcx.fcx, &mut bcx.build);
    assert_eq!(bcx.build.insts.len(), 3);
    assert_eq!(bcx.build.insts[2], Inst::RetVoid);
}

#[test]
fn block_stops_at_first_unsupported_statement() {
    let mut cx = TransCtxt::new(&Session::new("m"), "");
    let k = cx.llmod.functions.len();
    decl_cdecl_fn(&mut cx.llmod, ".f", vec![T_ptr(T_int()), T_ptr(T_task())], T_nil());
    let fcx = FnCtxt { llfn: k, lloutptr: get_param(k, 0), lltaskptr: get_param(k, 1) };
    let body = vec![log_int(1), Stmt::Ret, log_int(2)];
    let r = trans_block(&mut cx, &fcx, &body, Terminator::Default);
    assert_eq!(r, Err(TransError::Unimplemented(Construct::StmtVariant)));
    assert!(cx.llmod.functions[k].blocks.is_empty());
    assert_eq!(cx.llmod.functions.len(), k + 2);
    assert_eq!(cx.llmod.functions[k + 1].name, "upcall_log_int");
}

#[test]
fn block_holds_one_call_per_statement_then_returns() {
    let mut cx = TransCtxt::new(&Session::new("m"), "");
    let k = cx.llmod.functions.len();
    decl_cdecl_fn(&mut cx.llmod, ".f", vec![T_ptr(T_int()), T_ptr(T_task())], T_nil());
    let fcx = FnCtxt { llfn: k, lloutptr: get_param(k, 0), lltaskptr: get_param(k, 1) };
    let body = vec![log_int(7), log_int(-3)];
    trans_block(&mut cx, &fcx, &body, Terminator::Default).unwrap();
    let insts = &cx.llmod.functions[k].blocks[0].insts;
    assert_eq!(insts.len(), 3);
    for (j, v) in [7i64, -3].iter().enumerate() {
        assert_eq!(
            insts[j],
            Inst::Call {
                callee: ValueRef::Function(3),
                args: vec![
                    ValueRef::Param { func: k, index: 1 },
                    ValueRef::PtrCast(Box::new(ValueRef::Function(k + 1)), TypeRef::Int),
                    ValueRef::ConstInt(TypeRef::Int, *v),
                ],
            }
        );
    }
    assert_eq!(insts[2], Inst::RetVoid);
}
