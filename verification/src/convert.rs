//! Coordinate conversion and edit classification.
//!
//! Abstract ranges are zero-based with an exclusive end; native ranges are
//! one-based with an inclusive end. A zero-length abstract range is first
//! widened one column past its end so the selection is never degenerate; an
//! end sitting at column zero of a line selects through the end of the
//! previous line, written with the `EOL_SENTINEL` column.

use vstd::prelude::*;

use crate::model::AbstractEdit;
use crate::model::AbstractPosition;
use crate::model::AbstractRange;
use crate::model::ApplicationKind;
use crate::model::NativeEdit;
use crate::model::NativePosition;
use crate::model::NativeRange;
use crate::model::EOL_SENTINEL;
use crate::text::spec_dec;
use crate::text::push_u64;
use crate::text::push_char;

verus! {

/// The native range that selects exactly the text the abstract range spans.
///
/// A zero-length range is treated as one column wide before conversion; a
/// column-positive end becomes the inclusive end column on the following
/// native line; an end at column zero keeps its line (already the following
/// one in native numbering) and takes the end-of-line sentinel column.
pub open spec fn spec_convert(r: AbstractRange) -> NativeRange {
    let zero_len = r.start.line == r.end.line && r.start.character == r.end.character;
    let end_char: int = if zero_len {
        r.end.character + 1
    } else {
        r.end.character as int
    };
    NativeRange {
        start: NativePosition {
            line: (r.start.line + 1) as u64,
            character: (r.start.character + 1) as u64,
        },
        end: if end_char > 0 {
            NativePosition { line: (r.end.line + 1) as u64, character: end_char as u64 }
        } else {
            NativePosition { line: r.end.line as u64, character: EOL_SENTINEL }
        },
    }
}

/// How an edit with this abstract range is applied: a pure insertion point
/// at column zero inserts before the line's first character, any other
/// insertion point inserts after its anchor, and a real span is replaced.
pub open spec fn spec_kind(r: AbstractRange) -> ApplicationKind {
    if r.start == r.end {
        if r.end.character == 0 {
            ApplicationKind::InsertBefore
        } else {
            ApplicationKind::InsertAfter
        }
    } else {
        ApplicationKind::Replace
    }
}

/// The native edit produced for one abstract edit: the converted range, the
/// same replacement text, and the application kind of the original range.
pub open spec fn spec_classify(e: AbstractEdit) -> NativeEdit {
    NativeEdit { range: spec_convert(e.range), new_text: e.new_text, kind: spec_kind(e.range) }
}

/// Converts one abstract range to the native coordinate system.
pub fn kakoune_range(range: AbstractRange) -> (r: NativeRange)
    ensures
        r == spec_convert(range),
{
    let start_line = range.start.line as u64;
    let start_char = range.start.character as u64;
    let mut end_line = range.end.line as u64;
    let mut end_char = range.end.character as u64;

    // Some producers emit zero-length ranges; widen them one column so the
    // selection is never degenerate.
    if range.start.line == range.end.line && range.start.character == range.end.character {
        end_char = end_char + 1;
    }
    if end_char > 0 {
        end_line = end_line + 1;
    } else {
        end_char = EOL_SENTINEL;
    }
    NativeRange {
        start: NativePosition { line: start_line + 1, character: start_char + 1 },
        end: NativePosition { line: end_line, character: end_char },
    }
}

/// Converts one abstract range to the textual native form
/// `"{startLine}.{startColumn},{endLine}.{endColumn}"`.
pub fn lsp_range_to_kakoune(range: AbstractRange) -> (r: String)
    ensures
        r@ == spec_range_text(spec_convert(range)),
{
    let nr = kakoune_range(range);
    range_text(&nr)
}

/// The textual form of a native range: `"{startLine}.{startColumn},{endLine}.{endColumn}"`.
pub open spec fn spec_range_text(r: NativeRange) -> Seq<char> {
    spec_dec(r.start.line as nat) + seq!['.'] + spec_dec(r.start.character as nat) + seq![',']
        + spec_dec(r.end.line as nat) + seq!['.'] + spec_dec(r.end.character as nat)
}

/// Renders a native range in its textual form.
pub fn range_text(r: &NativeRange) -> (s: String)
    ensures
        s@ == spec_range_text(*r),
{
    let mut out = String::new();
    push_u64(&mut out, r.start.line);
    push_char(&mut out, '.');
    push_u64(&mut out, r.start.character);
    push_char(&mut out, ',');
    push_u64(&mut out, r.end.line);
    push_char(&mut out, '.');
    push_u64(&mut out, r.end.character);
    proof {
        assert(out@ =~= spec_range_text(*r));
    }
    out
}

/// Classifies one abstract edit: converts its range, applies the
/// insertion-specific adjustments, and tags it with its application kind.
pub fn lsp_text_edit_to_kakoune(edit: &AbstractEdit) -> (r: NativeEdit)
    ensures
        r == spec_classify(*edit),
{
    let range = edit.range;
    let insert = range.start.line == range.end.line
        && range.start.character == range.end.character;
    // A beginning-of-line insertion anchors on the first character of the
    // target line and inserts before it; selecting the end of the previous
    // line instead would misorder a delete immediately followed by an
    // insert at the same boundary.
    let bol_insert = insert && range.end.character == 0;

    let mut nr = kakoune_range(range);
    if bol_insert {
        nr.end.line = nr.start.line;
        nr.end.character = 1;
    } else if insert {
        nr.start.character = nr.end.character;
    }

    let kind = if bol_insert {
        ApplicationKind::InsertBefore
    } else if insert {
        ApplicationKind::InsertAfter
    } else {
        ApplicationKind::Replace
    };
    NativeEdit { range: nr, new_text: edit.new_text.clone(), kind }
}

/// Conversion keeps editor order: a well-formed abstract range whose start
/// column lies below the end-of-line sentinel converts to a native range
/// whose start does not come after its end.
pub proof fn lemma_convert_wf(r: AbstractRange)
    requires
        r.wf(),
        r.start.character < EOL_SENTINEL,
    ensures
        spec_convert(r).wf(),
{
}

/// A zero-length abstract range at (L, C) converts to the single-character
/// native selection at (L+1, C+1), and classification keeps that anchor,
/// inserting before it when C is zero and after it otherwise.
pub proof fn lemma_zero_length_conversion(e: AbstractEdit)
    requires
        e.range.start == e.range.end,
    ensures
        spec_convert(e.range).start == (NativePosition {
            line: (e.range.start.line + 1) as u64,
            character: (e.range.start.character + 1) as u64,
        }),
        spec_convert(e.range).end == spec_convert(e.range).start,
        spec_classify(e).range == spec_convert(e.range),
        spec_classify(e).kind == (if e.range.start.character == 0 {
            ApplicationKind::InsertBefore
        } else {
            ApplicationKind::InsertAfter
        }),
{
}

/// An abstract range of positive length ending at column 0 of line E keeps
/// native end line E (never E+1) and takes the end-of-line sentinel column.
pub proof fn lemma_column_zero_end(r: AbstractRange)
    requires
        r.end.character == 0,
        r.start != r.end,
    ensures
        spec_convert(r).end == (NativePosition { line: r.end.line as u64, character: EOL_SENTINEL }),
{
}

/// Round-trip: for a range of positive length that does not end at column 0,
/// inverting the base conversion on the native range recovers the abstract
/// bounds exactly.
pub proof fn lemma_round_trip(r: AbstractRange)
    requires
        r.start != r.end,
        r.end.character > 0,
    ensures
        spec_convert(r).start.line - 1 == r.start.line,
        spec_convert(r).start.character - 1 == r.start.character,
        spec_convert(r).end.line - 1 == r.end.line,
        spec_convert(r).end.character == r.end.character,
{
}

} // verus!
