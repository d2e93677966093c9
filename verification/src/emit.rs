//! Command emission: one command string for a whole batch of edits.
//!
//! The command selects every converted range, then applies one directive
//! per edit in sorted order, threading a selection index that stands still
//! when an adjoining edit with an empty replacement collapses a selection.

use vstd::prelude::*;

use crate::convert::lsp_text_edit_to_kakoune;
use crate::convert::range_text;
use crate::convert::spec_classify;
use crate::convert::spec_range_text;
use crate::model::AbstractEdit;
use crate::model::ApplicationKind;
use crate::model::NativeEdit;
use crate::order::adjoining_flags;
use crate::order::sort_edits;
use crate::order::sort_spec;
use crate::order::spec_adjoin_at;
use crate::text::editor_quote;
use crate::text::join_strings;
use crate::text::push_u64;
use crate::text::spec_dec;
use crate::text::spec_join;
use crate::text::spec_quote;

verus! {

/// Every abstract edit classified, in input order.
pub open spec fn classify_all(edits: Seq<AbstractEdit>) -> Seq<NativeEdit> {
    edits.map_values(|e: AbstractEdit| spec_classify(e))
}

/// The batch as the emitter walks it: classified, then stably sorted.
pub open spec fn spec_sorted_edits(edits: Seq<AbstractEdit>) -> Seq<NativeEdit> {
    sort_spec(classify_all(edits))
}

/// The edit at `i` lets the selection index advance: it is not an
/// adjoining edit with an empty replacement (collapsing such an edit
/// removes its selection, so the following selection shifts left by one
/// on its own and must not be counted again).
pub open spec fn spec_advances(s: Seq<NativeEdit>, i: int) -> bool {
    !(spec_adjoin_at(s, i) && s[i].new_text@.len() == 0)
}

/// The selection index in force when the directive for edit `i` is
/// emitted: the number of predecessors that advanced it.
pub open spec fn sel_at(s: Seq<NativeEdit>, i: int) -> nat
    decreases i,
{
    if i <= 0 {
        0
    } else {
        sel_at(s, i - 1) + (if spec_advances(s, i - 1) {
            1nat
        } else {
            0nat
        })
    }
}

/// The editor primitive named by an application kind.
pub open spec fn spec_kind_name(k: ApplicationKind) -> Seq<char> {
    match k {
        ApplicationKind::InsertBefore => "lsp-insert-before-selection"@,
        ApplicationKind::InsertAfter => "lsp-insert-after-selection"@,
        ApplicationKind::Replace => "lsp-replace-selection"@,
    }
}

/// The selection-rotation argument: the decimal index and a closing
/// parenthesis when the index is positive, nothing at index zero.
pub open spec fn spec_sel_prefix(sel: nat) -> Seq<char> {
    if sel > 0 {
        spec_dec(sel) + ")"@
    } else {
        Seq::<char>::empty()
    }
}

/// One apply directive: rotate to the edit's selection, then run its
/// primitive on the quoted replacement text.
pub open spec fn spec_apply_directive(e: NativeEdit, sel: nat) -> Seq<char> {
    "exec 'z"@ + spec_sel_prefix(sel) + "<space>'\n                    "@ + spec_kind_name(e.kind)
        + " "@ + spec_quote(e.new_text@)
}

/// The textual ranges of the sorted edits, one per edit.
pub open spec fn spec_select_texts(s: Seq<NativeEdit>) -> Seq<Seq<char>> {
    Seq::new(s.len(), |i: int| spec_range_text(s[i].range))
}

/// The apply directives of the sorted edits, one per edit, each at its
/// selection index.
pub open spec fn spec_apply_texts(s: Seq<NativeEdit>) -> Seq<Seq<char>> {
    Seq::new(s.len(), |i: int| spec_apply_directive(s[i], sel_at(s, i)))
}

/// The command block for a non-empty sorted batch: a select directive over
/// all ranges, a register-saving exec, and the apply directives, each on
/// its own line.
pub open spec fn spec_block(s: Seq<NativeEdit>) -> Seq<char> {
    "select "@ + spec_join(spec_select_texts(s), " "@)
        + "\n            exec -save-regs '' Z\n            "@ + spec_join(
        spec_apply_texts(s),
        "\n"@,
    )
}

/// The block quoted and run in a draft context that preserves the
/// anonymous register.
pub open spec fn spec_wrapped(s: Seq<NativeEdit>) -> Seq<char> {
    "eval -draft -save-regs '^' "@ + spec_quote(spec_block(s))
}

/// The whole command for a batch: the fixed no-op for an empty batch, the
/// wrapped block otherwise, retargeted at `buffile` when one is given.
pub open spec fn spec_apply_text_edits(buffile: Option<Seq<char>>, edits: Seq<AbstractEdit>) -> Seq<
    char,
> {
    if edits.len() == 0 {
        "nop"@
    } else {
        let wrapped = spec_wrapped(spec_sorted_edits(edits));
        match buffile {
            Some(b) => "lsp-apply-edits-to-file "@ + spec_quote(b) + " "@ + spec_quote(wrapped),
            None => wrapped,
        }
    }
}

/// The view of an optional document identifier.
pub open spec fn spec_buffile(buffile: Option<&String>) -> Option<Seq<char>> {
    match buffile {
        Some(b) => Some(b@),
        None => None,
    }
}

/// The editor primitive for an application kind.
pub fn kind_command(k: ApplicationKind) -> (r: &'static str)
    ensures
        r@ == spec_kind_name(k),
{
    match k {
        ApplicationKind::InsertBefore => "lsp-insert-before-selection",
        ApplicationKind::InsertAfter => "lsp-insert-after-selection",
        ApplicationKind::Replace => "lsp-replace-selection",
    }
}

/// Over a batch of all-empty replacements in which every consecutive pair
/// adjoins, the selection index never advances: every apply directive
/// targets selection zero.
pub proof fn lemma_empty_adjoining_batch(s: Seq<NativeEdit>, i: int)
    requires
        forall|j: int| 0 <= j < s.len() ==> s[j].new_text@.len() == 0,
        forall|j: int| 0 <= j < s.len() - 1 ==> spec_adjoin_at(s, j),
        0 <= i < s.len(),
    ensures
        sel_at(s, i) == 0,
    decreases i,
{
    if i > 0 {
        lemma_empty_adjoining_batch(s, i - 1);
        assert(spec_adjoin_at(s, i - 1));
        assert(!spec_advances(s, i - 1));
    }
}

/// Builds one apply directive for the edit at selection index `sel`.
fn apply_directive(e: &NativeEdit, sel: usize) -> (r: String)
    ensures
        r@ == spec_apply_directive(*e, sel as nat),
{
    let mut d = String::new();
    d.append("exec 'z");
    if sel > 0 {
        push_u64(&mut d, sel as u64);
        d.append(")");
    }
    d.append("<space>'\n                    ");
    d.append(kind_command(e.kind));
    d.append(" ");
    let quoted = editor_quote(e.new_text.as_str());
    d.append(quoted.as_str());
    proof {
        assert(d@ =~= spec_apply_directive(*e, sel as nat));
    }
    d
}

/// Produces the command string that applies the whole batch of edits:
/// converts and classifies each edit, sorts them left to right, detects
/// adjoining pairs, and emits one select directive plus one apply
/// directive per edit, wrapped as one quoted draft evaluation — or the
/// fixed no-op directive for an empty batch.
pub fn apply_text_edits(buffile: Option<&String>, edits: &Vec<AbstractEdit>) -> (r: String)
    ensures
        r@ == spec_apply_text_edits(spec_buffile(buffile), edits@),
{
    if edits.len() == 0 {
        return String::from_str("nop");
    }
    // Classify every edit in input order.
    let mut natives: Vec<NativeEdit> = Vec::new();
    let mut i: usize = 0;
    while i < edits.len()
        invariant
            i <= edits@.len(),
            natives@ == classify_all(edits@.take(i as int)),
        decreases edits@.len() - i,
    {
        let ne = lsp_text_edit_to_kakoune(&edits[i]);
        natives.push(ne);
        proof {
            assert(natives@ =~= classify_all(edits@.take(i + 1)));
        }
        i = i + 1;
    }
    proof {
        assert(edits@.take(edits@.len() as int) =~= edits@);
    }
    // Order the batch left to right; adjoining detection and the editor's
    // multi-selection application both rely on it.
    let sorted = sort_edits(natives);
    let ghost ss = spec_sorted_edits(edits@);
    proof {
        assert(sorted@ == ss);
    }

    let mut select_parts: Vec<String> = Vec::new();
    let mut i: usize = 0;
    while i < sorted.len()
        invariant
            i <= sorted@.len(),
            sorted@ == ss,
            select_parts@.len() == i,
            forall|j: int| 0 <= j < i ==> select_parts@[j]@ == spec_range_text(ss[j].range),
        decreases sorted@.len() - i,
    {
        let t = range_text(&sorted[i].range);
        select_parts.push(t);
        i = i + 1;
    }
    let select_line = join_strings(&select_parts, " ");
    proof {
        assert(select_parts@.map_values(|p: String| p@) =~= spec_select_texts(ss));
        assert(select_line@ == spec_join(spec_select_texts(ss), " "@));
    }

    let flags = adjoining_flags(&sorted);
    let mut apply_parts: Vec<String> = Vec::new();
    let mut sel: usize = 0;
    let mut i: usize = 0;
    while i < sorted.len()
        invariant
            i <= sorted@.len(),
            sorted@ == ss,
            flags@.len() == ss.len(),
            forall|j: int| 0 <= j < ss.len() ==> flags@[j] == spec_adjoin_at(ss, j),
            apply_parts@.len() == i,
            forall|j: int|
                0 <= j < i ==> apply_parts@[j]@ == spec_apply_directive(ss[j], sel_at(ss, j)),
            sel <= i,
            sel as nat == sel_at(ss, i as int),
        decreases sorted@.len() - i,
    {
        let d = apply_directive(&sorted[i], sel);
        apply_parts.push(d);
        // An adjoining edit with an empty replacement removes its own
        // selection, so the counter stands still for it.
        if !(flags[i] && sorted[i].new_text.as_str().is_empty()) {
            sel = sel + 1;
        }
        proof {
            assert(sel as nat == sel_at(ss, i + 1));
        }
        i = i + 1;
    }
    let applies = join_strings(&apply_parts, "\n");
    proof {
        assert(apply_parts@.map_values(|p: String| p@) =~= spec_apply_texts(ss));
        assert(applies@ == spec_join(spec_apply_texts(ss), "\n"@));
    }

    let mut block = String::new();
    block.append("select ");
    block.append(select_line.as_str());
    block.append("\n            exec -save-regs '' Z\n            ");
    block.append(applies.as_str());
    proof {
        assert(block@ =~= spec_block(ss));
    }
    let quoted_block = editor_quote(block.as_str());
    let mut wrapped = String::new();
    wrapped.append("eval -draft -save-regs '^' ");
    wrapped.append(quoted_block.as_str());
    proof {
        assert(wrapped@ =~= spec_wrapped(ss));
    }
    match buffile {
        Some(b) => {
            let mut out = String::new();
            out.append("lsp-apply-edits-to-file ");
            let qb = editor_quote(b.as_str());
            out.append(qb.as_str());
            out.append(" ");
            let qw = editor_quote(wrapped.as_str());
            out.append(qw.as_str());
            proof {
                assert(out@ =~= spec_apply_text_edits(spec_buffile(buffile), edits@));
            }
            out
        },
        None => wrapped,
    }
}

} // verus!
