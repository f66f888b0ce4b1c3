//! The rule for package paths named in a manifest, such as the icon.
//!
//! A path is read by the Unix rules of `std::path::Path::components`: `/` separates
//! components, repeated separators and interior `.` components are dropped, a leading `/`
//! makes the path absolute, and a leading `.` component and every `..` component are kept
//! as such.

use vstd::prelude::*;
use crate::error::{ManifestError, invalid, outcome_matches};
use crate::unicode::chars_of;

verus! {

/// The path begins with the current-directory component `.`.
pub open spec fn starts_with_cur_dir(p: Seq<char>) -> bool {
    p.len() > 0 && p[0] == '.' && (p.len() == 1 || p[1] == '/')
}

/// A `..` component begins at position `i` of the path.
pub open spec fn parent_dir_at(p: Seq<char>, i: int) -> bool {
    &&& 0 <= i
    &&& i + 2 <= p.len()
    &&& p[i] == '.'
    &&& p[i + 1] == '.'
    &&& (i == 0 || p[i - 1] == '/')
    &&& (i + 2 == p.len() || p[i + 2] == '/')
}

/// The path has a `..` component.
pub open spec fn has_parent_dir(p: Seq<char>) -> bool {
    exists|i: int| #[trigger] parent_dir_at(p, i)
}

/// The path is absolute: it starts at the root.
pub open spec fn is_absolute(p: Seq<char>) -> bool {
    p.len() > 0 && p[0] == '/'
}

/// A safe relative package path: not empty, not absolute, and every component an
/// ordinary name (no `.` prefix, no `..`).
pub open spec fn relative_path_ok(p: Seq<char>) -> bool {
    &&& p.len() > 0
    &&& !is_absolute(p)
    &&& !starts_with_cur_dir(p)
    &&& !has_parent_dir(p)
}

/// The refusal text for a field holding an unsafe path.
pub open spec fn relative_path_error(field: Seq<char>) -> Seq<char> {
    field + " must be a safe relative package path"@
}

fn parent_dir_anywhere(p: &Vec<char>) -> (res: bool)
    ensures
        res == has_parent_dir(p@),
{
    let n = p.len();
    let mut i: usize = 0;
    while i < n && n - i >= 2
        invariant
            n == p@.len(),
            i <= n,
            forall|k: int| 0 <= k < i ==> !#[trigger] parent_dir_at(p@, k),
        decreases n - i,
    {
        if p[i] == '.' && p[i + 1] == '.' && (i == 0 || p[i - 1] == '/') && (i + 2 == n || p[i + 2] == '/') {
            assert(parent_dir_at(p@, i as int));
            return true;
        }
        i += 1;
    }
    false
}

/// Checks that `path`, the content of the field `field`, is a safe relative package path.
pub fn validate_relative_path(field: &str, path: &str) -> (res: Result<(), ManifestError>)
    ensures
        res is Ok <==> relative_path_ok(path@),
        !relative_path_ok(path@) ==> outcome_matches(res, Err(relative_path_error(field@))),
{
    let p = chars_of(path);
    let n = p.len();
    if n == 0 || p[0] == '/' || (p[0] == '.' && (n == 1 || p[1] == '/')) || parent_dir_anywhere(&p) {
        let mut msg = String::from_str(field);
        msg.append(" must be a safe relative package path");
        return invalid(msg);
    }
    Ok(())
}

} // verus!
