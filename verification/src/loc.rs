//! Source locations.

use vstd::prelude::*;

verus! {

/// Where a construct stands.
///
/// `File(file_no, start, end)` holds the number of the source file and the
/// byte offsets at which the construct starts and ends. The other variants
/// mark constructs that no source file holds.
#[derive(Clone, Copy, Debug, PartialEq, Eq, Structural)]
pub enum Loc {
    Builtin,
    CommandLine,
    Implicit,
    Codegen,
    File(usize, usize, usize),
}

impl Loc {
    /// A location is a span when it lies in a file and does not end before
    /// it starts.
    pub open spec fn is_span(self) -> bool {
        match self {
            Loc::File(_, start, end) => start <= end,
            _ => false,
        }
    }

    /// Tells whether the location is a span of a source file.
    pub fn in_file(&self) -> (b: bool)
        ensures
            b == self.is_span(),
    {
        match *self {
            Loc::File(_, start, end) => start <= end,
            _ => false,
        }
    }
}

} // verus!
