//! Input sources: a named file or standard input, as a uniform line sequence.

use vstd::prelude::*;

verus! {

/// One input source, materialized: its display name and its lines.
///
/// The name is absent for standard input. Each entry of `lines` is one line
/// of the source in order, with line endings removed, or `None` for a line
/// that could not be read; such a line yields no match record but keeps its
/// ordinal position, so later lines keep their true line numbers.
pub struct InputSource {
    /// Source name for display (None for stdin).
    pub name: Option<String>,
    /// The source's lines, in order.
    pub lines: Vec<Option<String>>,
}

} // verus!
