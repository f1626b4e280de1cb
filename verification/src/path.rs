//! Paths as texts: components with `/` between them.

use crate::text::{chars_of, push_str, string_of};
use vstd::prelude::*;

verus! {

/// The path of the entry `name` in the directory `base`. An empty `base` is
/// the current directory and gives `name` alone; a `base` that ends with `/`
/// takes no second one.
pub open spec fn child_path(base: Seq<char>, name: Seq<char>) -> Seq<char> {
    if base.len() == 0 {
        name
    } else if base.last() == '/' {
        base + name
    } else {
        base + "/"@ + name
    }
}

/// The path of the entry `name` in the directory `base`.
pub fn join_path(base: &str, name: &str) -> (r: String)
    ensures
        r@ == child_path(base@, name@),
{
    let mut out = chars_of(base);
    let n: usize = out.len();
    if n > 0 && out[n - 1] != '/' {
        push_str(&mut out, "/");
    }
    push_str(&mut out, name);
    proof {
        if n == 0 {
            assert(out@ == name@);
        }
    }
    string_of(&out)
}

} // verus!
