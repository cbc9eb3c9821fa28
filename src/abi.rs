//! The fixed calling contract shared between generated code and the runtime:
//! how many upcall glues there are and what their symbols are called.
use vstd::prelude::*;
use vstd::string::StringExecFns;

verus! {

/// Number of upcall glue stubs: one per upcall arity `0 .. N_UPCALL_GLUES`.
pub const N_UPCALL_GLUES: usize = 7;

/// The decimal digit character for `d` (`d < 10`).
pub open spec fn digit_char(d: nat) -> char {
    if d == 0 { '0' }
    else if d == 1 { '1' }
    else if d == 2 { '2' }
    else if d == 3 { '3' }
    else if d == 4 { '4' }
    else if d == 5 { '5' }
    else if d == 6 { '6' }
    else if d == 7 { '7' }
    else if d == 8 { '8' }
    else { '9' }
}

/// Base-ten rendering of `n`, most significant digit first, without sign.
pub open spec fn decimal(n: nat) -> Seq<char>
    decreases n,
{
    if n < 10 {
        seq![digit_char(n)]
    } else {
        decimal(n / 10).push(digit_char(n % 10))
    }
}

pub open spec fn spec_activate_glue_name() -> Seq<char> {
    "rust_activate_glue"@
}

pub open spec fn spec_yield_glue_name() -> Seq<char> {
    "rust_yield_glue"@
}

pub open spec fn spec_upcall_glue_name(n: nat) -> Seq<char> {
    "rust_upcall_"@ + decimal(n)
}

fn digit_str(d: usize) -> (r: &'static str)
    requires
        d < 10,
    ensures
        r@ == seq![digit_char(d as nat)],
{
    proof {
        reveal_strlit("0");
        reveal_strlit("1");
        reveal_strlit("2");
        reveal_strlit("3");
        reveal_strlit("4");
        reveal_strlit("5");
        reveal_strlit("6");
        reveal_strlit("7");
        reveal_strlit("8");
        reveal_strlit("9");
    }
    if d == 0 { "0" }
    else if d == 1 { "1" }
    else if d == 2 { "2" }
    else if d == 3 { "3" }
    else if d == 4 { "4" }
    else if d == 5 { "5" }
    else if d == 6 { "6" }
    else if d == 7 { "7" }
    else if d == 8 { "8" }
    else { "9" }
}

/// Appends the decimal rendering of `n` to `s`.
pub fn push_decimal(s: &mut String, n: usize)
    ensures
        final(s)@ == old(s)@ + decimal(n as nat),
    decreases n,
{
    if n < 10 {
        s.append(digit_str(n));
    } else {
        push_decimal(s, n / 10);
        s.append(digit_str(n % 10));
    }
}

/// Symbol of the glue that starts running a task.
pub fn activate_glue_name() -> (r: String)
    ensures
        r@ == spec_activate_glue_name(),
{
    String::from_str("rust_activate_glue")
}

/// Symbol of the glue through which a task yields to the scheduler.
pub fn yield_glue_name() -> (r: String)
    ensures
        r@ == spec_yield_glue_name(),
{
    String::from_str("rust_yield_glue")
}

/// Symbol of the glue that dispatches upcalls taking `n` arguments.
pub fn upcall_glue_name(n: usize) -> (r: String)
    ensures
        r@ == spec_upcall_glue_name(n as nat),
{
    let mut s = String::from_str("rust_upcall_");
    push_decimal(&mut s, n);
    s
}

} // verus!
