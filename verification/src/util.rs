//! Small shared helpers.

use vstd::prelude::*;

verus! {

/// The scratch directory that tests and tools may use for their output
/// files.
pub fn get_tmp_dir() -> (r: String)
    ensures
        r@ == "./.tmp"@,
{
    String::from_str("./.tmp")
}

} // verus!
