//! Data model: abstract (protocol-side) and native (editor-side) positions,
//! ranges and edits.

use vstd::prelude::*;

verus! {

/// Column value standing for "end of line" in a native position.
///
/// Invariant relied on throughout: it is strictly greater than any real
/// column count the editor can be asked to address, so it can never collide
/// with a genuine column.
pub const EOL_SENTINEL: u64 = 1000000;

/// A location in a document, zero-based in both line and column.
#[derive(Clone, Copy, PartialEq, Eq, Structural, Debug)]
pub struct AbstractPosition {
    pub line: u32,
    pub character: u32,
}

/// A half-open span between two abstract positions.
#[derive(Clone, Copy, PartialEq, Eq, Structural, Debug)]
pub struct AbstractRange {
    pub start: AbstractPosition,
    pub end: AbstractPosition,
}

/// A requested replacement: a span and the text that replaces it.
#[derive(Debug)]
pub struct AbstractEdit {
    pub range: AbstractRange,
    pub new_text: String,
}

/// A location in the target editor's coordinate system: one-based line and
/// column, where the column may be `EOL_SENTINEL`.
#[derive(Clone, Copy, PartialEq, Eq, Structural, Debug)]
pub struct NativePosition {
    pub line: u64,
    pub character: u64,
}

/// An inclusive span for a native selection.
#[derive(Clone, Copy, PartialEq, Eq, Structural, Debug)]
pub struct NativeRange {
    pub start: NativePosition,
    pub end: NativePosition,
}

/// How one edit is applied at its selection.
#[derive(Clone, Copy, PartialEq, Eq, Structural, Debug)]
pub enum ApplicationKind {
    InsertBefore,
    InsertAfter,
    Replace,
}

/// One edit ready for emission.
#[derive(Debug)]
pub struct NativeEdit {
    pub range: NativeRange,
    pub new_text: String,
    pub kind: ApplicationKind,
}

impl AbstractRange {
    /// The end does not precede the start in document order.
    pub open spec fn wf(self) -> bool {
        self.start.line < self.end.line
            || (self.start.line == self.end.line && self.start.character <= self.end.character)
    }
}

impl NativeRange {
    /// The start does not come after the end in editor order.
    pub open spec fn wf(self) -> bool {
        self.start.line < self.end.line
            || (self.start.line == self.end.line && self.start.character <= self.end.character)
    }
}

} // verus!
