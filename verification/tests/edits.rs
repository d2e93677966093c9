use kak_edits::convert::kakoune_range;
use kak_edits::convert::lsp_range_to_kakoune;
use kak_edits::convert::lsp_text_edit_to_kakoune;
use kak_edits::emit::apply_text_edits;
use kak_edits::model::AbstractEdit;
use kak_edits::model::AbstractPosition;
use kak_edits::model::AbstractRange;
use kak_edits::model::ApplicationKind;
use kak_edits::model::NativeEdit;
use kak_edits::model::NativePosition;
use kak_edits::model::NativeRange;
use kak_edits::model::EOL_SENTINEL;
use kak_edits::order::adjoining_flags;
use kak_edits::order::ranges_adjoin;
use kak_edits::order::sort_edits;
use kak_edits::text::editor_escape;
use kak_edits::text::editor_quote;
use kak_edits::text::u64_to_string;

fn arange(sl: u32, sc: u32, el: u32, ec: u32) -> AbstractRange {
    AbstractRange {
        start: AbstractPosition { line: sl, character: sc },
        end: AbstractPosition { line: el, character: ec },
    }
}

fn nrange(sl: u64, sc: u64, el: u64, ec: u64) -> NativeRange {
    NativeRange {
        start: NativePosition { line: sl, character: sc },
        end: NativePosition { line: el, character: ec },
    }
}

fn aedit(sl: u32, sc: u32, el: u32, ec: u32, text: &str) -> AbstractEdit {
    AbstractEdit { range: arange(sl, sc, el, ec), new_text: text.to_string() }
}

#[test]
fn decimal_rendering() {
    assert_eq!(u64_to_string(0), "0");
    assert_eq!(u64_to_string(7), "7");
    assert_eq!(u64_to_string(10), "10");
    assert_eq!(u64_to_string(1000000), "1000000");
    assert_eq!(u64_to_string(1234567890), "1234567890");
}

#[test]
fn escape_doubles_single_quotes() {
    assert_eq!(editor_escape(""), "");
    assert_eq!(editor_escape("abc"), "abc");
    assert_eq!(editor_escape("a'b"), "a''b");
    assert_eq!(editor_escape("''"), "''''");
}

#[test]
fn quote_wraps_and_escapes() {
    assert_eq!(editor_quote(""), "''");
    assert_eq!(editor_quote("it's"), "'it''s'");
    assert_eq!(editor_quote("x"), "'x'");
}

#[test]
fn zero_length_range_becomes_single_column_selection() {
    // A zero-length range at (L, C) covers exactly (L+1, C+1) natively.
    let nr = kakoune_range(arange(4, 2, 4, 2));
    assert_eq!(nr, nrange(5, 3, 5, 3));
    assert_eq!(lsp_range_to_kakoune(arange(4, 2, 4, 2)), "5.3,5.3");
}

#[test]
fn column_zero_end_takes_sentinel_on_same_native_line() {
    // Ending at column 0 of line 3 selects through the end of native line 3,
    // never line 4.
    let nr = kakoune_range(arange(1, 2, 3, 0));
    assert_eq!(nr.start, NativePosition { line: 2, character: 3 });
    assert_eq!(nr.end, NativePosition { line: 3, character: EOL_SENTINEL });
}

#[test]
fn zero_length_range_at_column_zero_is_widened_not_sentinel() {
    // The zero-length widening runs before the column-0 rule, so a
    // zero-length range at (3, 0) selects the first column of native
    // line 4 instead of a sentinel span.
    assert_eq!(kakoune_range(arange(3, 0, 3, 0)), nrange(4, 1, 4, 1));
    assert_eq!(lsp_range_to_kakoune(arange(3, 0, 3, 0)), "4.1,4.1");
}

#[test]
fn largest_coordinates_convert_without_wrapping() {
    let m = u32::MAX;
    let nr = kakoune_range(arange(m, m, m, m));
    assert_eq!(nr, nrange(4294967296, 4294967296, 4294967296, 4294967296));
}

#[test]
fn column_positive_end_moves_to_next_native_line() {
    assert_eq!(kakoune_range(arange(2, 3, 2, 5)), nrange(3, 4, 3, 5));
    assert_eq!(lsp_range_to_kakoune(arange(2, 3, 2, 5)), "3.4,3.5");
}

#[test]
fn round_trip_of_column_positive_span() {
    // Inverting the base conversion recovers the abstract bounds.
    let nr = kakoune_range(arange(1, 2, 3, 4));
    assert_eq!(nr, nrange(2, 3, 4, 4));
    assert_eq!(
        (nr.start.line - 1, nr.start.character - 1, nr.end.line - 1, nr.end.character),
        (1, 2, 3, 4)
    );
}

#[test]
fn classification_kinds() {
    let insert = lsp_text_edit_to_kakoune(&aedit(4, 2, 4, 2, "x"));
    assert_eq!(insert.kind, ApplicationKind::InsertAfter);
    assert_eq!(insert.range, nrange(5, 3, 5, 3));

    let bol = lsp_text_edit_to_kakoune(&aedit(5, 0, 5, 0, "y"));
    assert_eq!(bol.kind, ApplicationKind::InsertBefore);
    assert_eq!(bol.range, nrange(6, 1, 6, 1));

    let replace = lsp_text_edit_to_kakoune(&aedit(0, 1, 0, 4, "z"));
    assert_eq!(replace.kind, ApplicationKind::Replace);
    assert_eq!(replace.range, nrange(1, 2, 1, 4));
}

#[test]
fn sort_orders_by_key() {
    let a = NativeEdit { range: nrange(3, 1, 3, 5), new_text: "b".to_string(), kind: ApplicationKind::Replace };
    let b = NativeEdit { range: nrange(1, 1, 1, 2), new_text: "a".to_string(), kind: ApplicationKind::Replace };
    let sorted = sort_edits(vec![a, b]);
    assert_eq!(sorted[0].range, nrange(1, 1, 1, 2));
    assert_eq!(sorted[1].range, nrange(3, 1, 3, 5));
}

#[test]
fn sort_is_stable_on_equal_keys() {
    // Two inserts at the same point keep their input order.
    let first = NativeEdit { range: nrange(2, 2, 2, 2), new_text: "first".to_string(), kind: ApplicationKind::InsertAfter };
    let second = NativeEdit { range: nrange(2, 2, 2, 2), new_text: "second".to_string(), kind: ApplicationKind::InsertAfter };
    let third = NativeEdit { range: nrange(1, 1, 1, 1), new_text: "third".to_string(), kind: ApplicationKind::InsertAfter };
    let sorted = sort_edits(vec![first, second, third]);
    assert_eq!(sorted[0].new_text, "third");
    assert_eq!(sorted[1].new_text, "first");
    assert_eq!(sorted[2].new_text, "second");
}

#[test]
fn adjacency_same_line() {
    assert!(ranges_adjoin(&nrange(1, 1, 2, 4), &nrange(2, 5, 2, 9)));
    assert!(!ranges_adjoin(&nrange(1, 1, 2, 4), &nrange(2, 6, 2, 9)));
    assert!(!ranges_adjoin(&nrange(1, 1, 2, 4), &nrange(3, 5, 3, 9)));
}

#[test]
fn adjacency_cross_line_sentinel() {
    assert!(ranges_adjoin(&nrange(1, 1, 3, EOL_SENTINEL), &nrange(4, 1, 4, 2)));
    // Not at the very start of the following line: no adjacency.
    assert!(!ranges_adjoin(&nrange(1, 1, 3, EOL_SENTINEL), &nrange(4, 2, 4, 3)));
    // Not the sentinel column: no adjacency.
    assert!(!ranges_adjoin(&nrange(1, 1, 3, 80), &nrange(4, 1, 4, 2)));
}

#[test]
fn adjoining_flags_mark_exactly_touching_pairs() {
    let edits = vec![
        NativeEdit { range: nrange(1, 1, 1, 3), new_text: String::new(), kind: ApplicationKind::Replace },
        NativeEdit { range: nrange(1, 4, 1, 6), new_text: String::new(), kind: ApplicationKind::Replace },
        NativeEdit { range: nrange(5, 1, 5, 2), new_text: String::new(), kind: ApplicationKind::Replace },
    ];
    let flags = adjoining_flags(&edits);
    assert_eq!(flags, vec![true, false, false]);
}

#[test]
fn empty_batch_emits_noop() {
    let edits: Vec<AbstractEdit> = Vec::new();
    assert_eq!(apply_text_edits(None, &edits), "nop");
}

#[test]
fn single_insert_after() {
    // One insertion: select the anchor column, insert after it.
    let edits = vec![aedit(4, 2, 4, 2, "x")];
    let block = "select 5.3,5.3\n            exec -save-regs '' Z\n            exec 'z<space>'\n                    lsp-insert-after-selection 'x'";
    let expected = format!("eval -draft -save-regs '^' '{}'", block.replace('\'', "''"));
    assert_eq!(apply_text_edits(None, &edits), expected);
}

#[test]
fn adjoining_empty_edit_keeps_selection_index() {
    // Deleting a line, then inserting at the start of the next: the pair
    // adjoins across the sentinel, the empty replacement collapses its
    // selection, and the second directive still targets selection zero.
    let edits = vec![aedit(2, 0, 3, 0, ""), aedit(3, 0, 3, 0, "line\n")];
    let apply_first = "exec 'z<space>'\n                    lsp-replace-selection ''";
    let apply_second = "exec 'z<space>'\n                    lsp-insert-before-selection 'line\n'";
    let block = format!(
        "select 3.1,3.1000000 4.1,4.1\n            exec -save-regs '' Z\n            {}\n{}",
        apply_first, apply_second
    );
    let expected = format!("eval -draft -save-regs '^' '{}'", block.replace('\'', "''"));
    assert_eq!(apply_text_edits(None, &edits), expected);
}

#[test]
fn counter_advances_without_adjacency() {
    // Two separated replacements: the second directive rotates by one.
    let edits = vec![aedit(0, 0, 0, 2, "aa"), aedit(4, 0, 4, 2, "bb")];
    let apply_first = "exec 'z<space>'\n                    lsp-replace-selection 'aa'";
    let apply_second = "exec 'z1)<space>'\n                    lsp-replace-selection 'bb'";
    let block = format!(
        "select 1.1,1.2 5.1,5.2\n            exec -save-regs '' Z\n            {}\n{}",
        apply_first, apply_second
    );
    let expected = format!("eval -draft -save-regs '^' '{}'", block.replace('\'', "''"));
    assert_eq!(apply_text_edits(None, &edits), expected);
}

#[test]
fn fully_adjoining_all_empty_batch_stays_at_selection_zero() {
    // Three touching deletions on one line: no directive ever rotates, so
    // the rotation marker for selection one never appears.
    let edits = vec![aedit(0, 0, 0, 2, ""), aedit(0, 2, 0, 4, ""), aedit(0, 4, 0, 6, "")];
    let out = apply_text_edits(None, &edits);
    assert!(!out.contains("z1)"));
    assert!(!out.contains("z2)"));
    let apply = "exec 'z<space>'\n                    lsp-replace-selection ''";
    let block = format!(
        "select 1.1,1.2 1.3,1.4 1.5,1.6\n            exec -save-regs '' Z\n            {}\n{}\n{}",
        apply, apply, apply
    );
    let expected = format!("eval -draft -save-regs '^' '{}'", block.replace('\'', "''"));
    assert_eq!(out, expected);
}

#[test]
fn buffile_retargets_the_command() {
    let edits = vec![aedit(4, 2, 4, 2, "x")];
    let path = "/tmp/main.go".to_string();
    let block = "select 5.3,5.3\n            exec -save-regs '' Z\n            exec 'z<space>'\n                    lsp-insert-after-selection 'x'";
    let wrapped = format!("eval -draft -save-regs '^' '{}'", block.replace('\'', "''"));
    let expected = format!(
        "lsp-apply-edits-to-file '{}' '{}'",
        path,
        wrapped.replace('\'', "''")
    );
    assert_eq!(apply_text_edits(Some(&path), &edits), expected);
}

#[test]
fn stable_order_of_colocated_delete_and_insert() {
    // A delete immediately followed by an insert at the same boundary keeps
    // input order through sorting, so the delete's directive comes first.
    let edits = vec![aedit(6, 0, 6, 0, "A"), aedit(6, 0, 6, 0, "B")];
    let out = apply_text_edits(None, &edits);
    let a = out.find("''A''").expect("first insert present");
    let b = out.find("''B''").expect("second insert present");
    assert!(a < b);
}
