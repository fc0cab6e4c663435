//! Absolute-path construction and `./` stripping, over path bytes.

use vstd::prelude::*;

use crate::paths::has_root;
use crate::paths::join_spec;
use crate::paths::strip_cur_spec;
use crate::paths::strip_cur;
use crate::paths::join_paths;

verus! {

/// The absolute form of a path against a working directory: an absolute
/// path stands as it is; a relative one loses a leading `.` component and
/// is joined onto the working directory.
pub open spec fn absolute_spec(path: Seq<u8>, cwd: Seq<u8>) -> Seq<u8> {
    if has_root(path) {
        path
    } else {
        join_spec(cwd, strip_cur_spec(path))
    }
}

/// Strips one leading `.` component from the path.
pub fn strip_current_dir(path: &Vec<u8>) -> (r: Vec<u8>)
    ensures
        r@ == strip_cur_spec(path@),
{
    strip_cur(path)
}

/// The path made absolute against `cwd`.
pub fn path_absolute_form(path: &Vec<u8>, cwd: &Vec<u8>) -> (r: Vec<u8>)
    ensures
        r@ == absolute_spec(path@, cwd@),
{
    if path.len() > 0 && path[0] == crate::paths::SEP_BYTE {
        proof {
            assert(path@.subrange(0, path@.len() as int) =~= path@);
        }
        crate::paths::subvec(path, 0, path.len())
    } else {
        let stripped = strip_current_dir(path);
        join_paths(cwd, &stripped)
    }
}

/// Whether a path with these probe outcomes counts as an existing
/// directory: it is a directory, and it has a final component or
/// normalizes cleanly. The three probes ask the filesystem, so the
/// caller performs them and hands in their outcomes.
pub fn is_existing_directory(is_dir: bool, has_file_name: bool, normalizes: bool) -> (r: bool)
    ensures
        r == (is_dir && (has_file_name || normalizes)),
{
    is_dir && (has_file_name || normalizes)
}

/// The absolute form of the path: on this platform the same as
/// `path_absolute_form`.
pub fn absolute_path(path: &Vec<u8>, cwd: &Vec<u8>) -> (r: Vec<u8>)
    ensures
        r@ == absolute_spec(path@, cwd@),
{
    path_absolute_form(path, cwd)
}

} // verus!
