//! The command line options, as plain values. The argument parsing itself
//! lives with the surrounding tool; this is the shape it fills in.

use vstd::prelude::*;

verus! {

/// The search options read from the command line: the pattern, the root
/// path, whether hidden files are included, and a cap on the number of
/// results.
#[derive(Debug)]
pub struct Opts {
    pub pattern: String,
    pub path: String,
    pub hidden: bool,
    pub limit: Option<u64>,
}

} // verus!
