//! Host lookups the dispatch logic consults: executable-path resolution and
//! the interactive-parent classification.

use vstd::prelude::*;

use crate::strutil::{chars_of, eq_ignore_ascii_case_chars, seq_eq_ignore_ascii_case};

verus! {

/// Relies on which::which: searches the executable search path (or checks the
/// given absolute path) for an executable file of that name. What it finds
/// depends on the machine, so nothing is promised of the outcome.
#[verifier::external_body]
pub(crate) fn resolve_executable(executable: &str) -> (r: Option<String>) {
    match which::which(executable) {
        Ok(p) => p.to_str().map(|s| s.to_string()),
        Err(_) => None,
    }
}

/// Relies on std's Path::exists: whether the path names an entity on disk.
/// The answer depends on the machine, so nothing is promised of the outcome.
#[verifier::external_body]
pub(crate) fn path_exists(path: &str) -> (r: bool) {
    std::path::Path::new(path).exists()
}

/// Some configured shell name equals `name`, ignoring ASCII case.
pub open spec fn any_shell_matches(shells: Seq<String>, name: Seq<char>) -> bool {
    exists|i: int| 0 <= i < shells.len() && seq_eq_ignore_ascii_case(shells[i]@, name)
}

/// Whether the process that launched the dispatcher is one of the configured
/// interactive GUI shells. The parent's process name comes from the host's
/// process table and is compared ignoring ASCII case; an unknown parent is
/// never interactive.
pub fn is_interactive_parent(gui_shells: &[String], parent_name: &Option<String>) -> (r: bool)
    ensures
        r == match parent_name {
            Some(n) => any_shell_matches(gui_shells@, n@),
            None => false,
        },
{
    match parent_name {
        None => false,
        Some(n) => {
            let name_chars = chars_of(n.as_str());
            let mut i: usize = 0;
            while i < gui_shells.len()
                invariant
                    i <= gui_shells@.len(),
                    name_chars@ == n@,
                    parent_name matches Some(m) && m@ == n@,
                    forall|j: int|
                        0 <= j < i ==> !seq_eq_ignore_ascii_case(gui_shells@[j]@, n@),
                decreases gui_shells@.len() - i,
            {
                let shell_chars = chars_of(gui_shells[i].as_str());
                if eq_ignore_ascii_case_chars(&shell_chars, &name_chars) {
                    assert(seq_eq_ignore_ascii_case(gui_shells@[i as int]@, n@));
                    return true;
                }
                i = i + 1;
            }
            false
        },
    }
}

} // verus!
