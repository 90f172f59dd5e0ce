//! Stable identifiers for template call sites.
//!
//! A `LocationId` names one template call site: the project-relative path of
//! its file, the 1-based line and the 0-based byte column of the first byte
//! of its marker. It is a pure function of the pre-edit source position, so
//! an edit elsewhere in the file leaves it unchanged.
use vstd::prelude::*;

use crate::text::{copy_range, range_eq};

verus! {

/// The separator byte between path components.
pub open spec fn path_sep() -> u8 {
    '/' as u8
}

/// The project-relative form of `path`: with `root` and one separator
/// stripped from the front where `path` lies under `root`, and unchanged
/// otherwise.
pub open spec fn rel_path(root: Seq<u8>, path: Seq<u8>) -> Seq<u8> {
    if root.len() > 0 && path.len() > root.len() && path.subrange(0, root.len() as int) == root
        && path[root.len() as int] == path_sep() {
        path.subrange(root.len() + 1int, path.len() as int)
    } else {
        path
    }
}

/// Strips the project root from a file path.
pub fn relative_path(root: &[u8], path: &[u8]) -> (r: Vec<u8>)
    ensures
        r@ == rel_path(root@, path@),
{
    proof {
        assert(root@.subrange(0, root@.len() as int) =~= root@);
    }
    if root.len() > 0 && path.len() > root.len() && range_eq(path, 0, root.len(), root, 0, root.len())
        && path[root.len()] == ('/' as u8) {
        copy_range(path, root.len() + 1, path.len())
    } else {
        let r = copy_range(path, 0, path.len());
        proof {
            assert(r@ =~= path@);
        }
        r
    }
}

/// The mathematical value of a `LocationId`.
pub struct LocSpec {
    /// Project-relative file path.
    pub file: Seq<u8>,
    /// 1-based line of the call site's first marker byte.
    pub line: int,
    /// 0-based byte column of the call site's first marker byte.
    pub col: int,
}

/// Identifies one template call site: file, line and column of the start of
/// its marker in the pre-edit source.
#[derive(Clone, Debug, PartialEq, Eq)]
pub struct LocationId {
    /// Project-relative file path.
    pub file: Vec<u8>,
    /// 1-based line of the call site's first marker byte.
    pub line: usize,
    /// 0-based byte column of the call site's first marker byte.
    pub col: usize,
}

impl View for LocationId {
    type V = LocSpec;

    open spec fn view(&self) -> LocSpec {
        LocSpec { file: self.file@, line: self.line as int, col: self.col as int }
    }
}

} // verus!
