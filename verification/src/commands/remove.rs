//! `minipot remove`: deleting the server directory after confirmation.

use vstd::prelude::*;
use crate::text::{eq_ignore_ascii_case, eq_ignore_ascii_case_exec, trim, trim_str};

verus! {

/// The answer to "Are you sure? [y/N]" confirms only when it is "y" or "Y",
/// surrounding white space aside.
pub fn confirms_removal(input: &str) -> (r: bool)
    ensures
        r == eq_ignore_ascii_case(trim(input@), "y"@),
{
    let t = trim_str(input);
    eq_ignore_ascii_case_exec(t.as_str(), "y")
}

} // verus!
