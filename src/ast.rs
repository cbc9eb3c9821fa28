//! The program tree that translation consumes.
use vstd::prelude::*;

verus! {

#[derive(Debug)]
pub enum Lit {
    Int(i64),
    Bool(bool),
    Str(String),
    Nil,
}

#[derive(Debug)]
pub enum Atom {
    Lit(Lit),
    Name(String),
}

#[derive(Debug)]
pub enum Stmt {
    Log(Atom),
    Expr(Atom),
    Ret,
}

/// A function definition: its body is one block, a sequence of statements.
#[derive(Debug)]
pub struct FnDef {
    pub body: Vec<Stmt>,
}

/// A module: named items in declaration order.
#[derive(Debug)]
pub struct Mod {
    pub items: Vec<(String, Item)>,
}

#[derive(Debug)]
pub enum Item {
    Fn(FnDef),
    Mod(Mod),
}

#[derive(Debug)]
pub struct Crate {
    pub module: Mod,
}

} // verus!
