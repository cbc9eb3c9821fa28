//! The compile session and the diagnostics that abort translation.
use vstd::prelude::*;
use vstd::string::StringExecFns;

verus! {

/// A construct that translation does not cover.
#[derive(Clone, Copy, Debug, PartialEq, Eq, Structural)]
pub enum Construct {
    /// A literal other than an integer, logged.
    LiteralVariant,
    /// An atom other than a literal, logged.
    AtomVariant,
    /// A statement other than a log statement.
    StmtVariant,
}

/// Why a translation stopped.
#[derive(Clone, Copy, Debug, PartialEq, Eq, Structural)]
pub enum TransError {
    Unimplemented(Construct),
}

pub open spec fn spec_message(c: Construct) -> Seq<char> {
    match c {
        Construct::LiteralVariant => "literal variant in trans_log"@,
        Construct::AtomVariant => "atom variant in trans_log"@,
        Construct::StmtVariant => "stmt variant"@,
    }
}

impl Construct {
    /// The diagnostic text naming this construct.
    pub fn message(&self) -> (r: String)
        ensures
            r@ == spec_message(*self),
    {
        match self {
            Construct::LiteralVariant => String::from_str("literal variant in trans_log"),
            Construct::AtomVariant => String::from_str("atom variant in trans_log"),
            Construct::StmtVariant => String::from_str("stmt variant"),
        }
    }
}

/// One compilation: where its output goes, and how it reports what it cannot do.
#[derive(Debug)]
pub struct Session {
    /// Name of the module produced; the output file is named after it.
    pub out_name: String,
}

impl Session {
    pub fn new(out_name: &str) -> (r: Session)
        ensures
            r.out_name@ == out_name@,
    {
        Session { out_name: String::from_str(out_name) }
    }
}

} // verus!
