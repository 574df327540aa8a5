//! Edits of a text by search blocks and unified diffs.

use gitlab_mcp::patch::{apply_search_replace, apply_unified_diff};

#[test]
fn search_replace_rewrites_the_matching_block() {
    let out = apply_search_replace(
        "line one\nold text\nline three",
        "<<<<<<< SEARCH\nold text\n=======\nnew text\n>>>>>>> REPLACE",
        false,
    )
    .unwrap();
    assert_eq!(out, "line one\nnew text\nline three");
}

#[test]
fn search_replace_refuses_an_ambiguous_match() {
    let e = apply_search_replace(
        "dup\ndup",
        "<<<<<<< SEARCH\ndup\n=======\nx\n>>>>>>> REPLACE",
        false,
    )
    .unwrap_err();
    assert!(e.0.contains("more than once"));
}

#[test]
fn search_replace_can_replace_every_occurrence() {
    let out = apply_search_replace(
        "dup\ndup",
        "<<<<<<< SEARCH\ndup\n=======\nx\n>>>>>>> REPLACE",
        true,
    )
    .unwrap();
    assert_eq!(out, "x\nx");
}

#[test]
fn search_replace_reports_a_missing_block() {
    let e = apply_search_replace(
        "text",
        "<<<<<<< SEARCH\nabsent\n=======\nx\n>>>>>>> REPLACE",
        false,
    )
    .unwrap_err();
    assert!(e.0.contains("was not found"));
}

#[test]
fn empty_patch_is_rejected() {
    assert!(apply_search_replace("text", "nothing here", false).is_err());
}

#[test]
fn unified_diff_applies_a_hunk_with_context() {
    let out = apply_unified_diff(
        "alpha\nbeta\ngamma",
        "@@ -1,3 +1,3 @@\n alpha\n-beta\n+BETA\n gamma",
    )
    .unwrap();
    assert_eq!(out, "alpha\nBETA\ngamma");
}

#[test]
fn unified_diff_reports_missing_context() {
    let e = apply_unified_diff("alpha", "@@ -1 +1 @@\n-absent\n+x").unwrap_err();
    assert!(e.0.contains("was not found"));
}

#[test]
fn blocks_are_applied_one_after_the_other() {
    let patch = "<<<<<<< SEARCH\na\n=======\nb\n>>>>>>> REPLACE\n<<<<<<< SEARCH\nb\n=======\nc\n>>>>>>> REPLACE";
    assert_eq!(apply_search_replace("a", patch, false).unwrap(), "c");
}

#[test]
fn a_missing_block_is_quoted_up_to_sixty_characters() {
    let needle = "é\"".repeat(40);
    let patch = format!("<<<<<<< SEARCH\n{needle}\n=======\nx\n>>>>>>> REPLACE");
    let e = apply_search_replace("text", &patch, false).unwrap_err();
    let shown = "é\\\"".repeat(30);
    assert_eq!(
        e.0,
        format!("the search block was not found in the description: \"{shown}\"")
    );
}

#[test]
fn an_empty_search_block_is_never_found() {
    let e = apply_search_replace("text", "<<<<<<< SEARCH\n=======\nx\n>>>>>>> REPLACE", true)
        .unwrap_err();
    assert_eq!(e.0, "the search block was not found in the description: \"\"");
}

#[test]
fn blocks_that_were_never_closed_are_no_blocks() {
    let e = apply_search_replace("text", "<<<<<<< SEARCH\ntext\n=======\nx", false).unwrap_err();
    assert_eq!(e.0, "No valid search/replace blocks found");
}

#[test]
fn a_closing_line_without_a_replacement_is_passed_over() {
    let patch = ">>>>>>> REPLACE\n<<<<<<< SEARCH\ntext\n>>>>>>> REPLACE\n<<<<<<< SEARCH\ntext\n=======\nx\n>>>>>>> REPLACE";
    assert_eq!(apply_search_replace("text", patch, false).unwrap(), "x");
}

#[test]
fn an_insertion_without_context_goes_to_the_front() {
    assert_eq!(apply_unified_diff("tail", "@@ -0,0 +1 @@\n+head").unwrap(), "headtail");
}

#[test]
fn only_the_first_occurrence_of_a_hunk_changes() {
    assert_eq!(apply_unified_diff("a\na", "@@ -1 +1 @@\n-a\n+b").unwrap(), "b\na");
}

#[test]
fn file_headers_and_text_before_the_first_hunk_do_not_count() {
    let patch = "-x\n--- a/f\n+++ b/f\n@@ -1 +1 @@\r\n-one\r\n+two\n\\ No newline at end of file";
    assert_eq!(apply_unified_diff("one", patch).unwrap(), "two");
}

#[test]
fn a_blank_line_is_context() {
    assert_eq!(
        apply_unified_diff("a\n\nb", "@@ -1,3 +1,3 @@\n a\n\n-b\n+c").unwrap(),
        "a\n\nc"
    );
}

#[test]
fn a_diff_without_hunks_is_rejected() {
    let e = apply_unified_diff("text", "-text\n+x").unwrap_err();
    assert_eq!(e.0, "the unified diff contained no hunks");
}

#[test]
fn an_unambiguous_edit_is_the_same_either_way() {
    let patch = "<<<<<<< SEARCH\nb\n=======\nx\ny\n>>>>>>> REPLACE";
    let one = apply_search_replace("a\nb\nc", patch, false).unwrap();
    assert_eq!(one, "a\nx\ny\nc");
    assert_eq!(apply_search_replace("a\nb\nc", patch, true).unwrap(), one);
}

#[test]
fn counted_lines_may_begin_with_three_signs() {
    assert_eq!(
        apply_unified_diff("a\n---\nb", "@@ -1,3 +1,2 @@\n a\n----\n b").unwrap(),
        "a\nb"
    );
    assert_eq!(
        apply_unified_diff("a\nb", "@@ -1,2 +1,3 @@ heading\n a\n++++\n b").unwrap(),
        "a\n+++\nb"
    );
    assert_eq!(apply_unified_diff("--", "@@ -1 +1 @@\n---\n+++").unwrap(), "++");
}

#[test]
fn file_headers_between_hunks_are_skipped() {
    let patch = "@@ -1 +1 @@\n-one\n+two\n--- a/g\n+++ b/g\n@@ -2 +2 @@\n-three\n+four";
    assert_eq!(apply_unified_diff("one\nthree", patch).unwrap(), "two\nfour");
    // The header counts no line before the edit, so a line of minus signs is none.
    assert_eq!(apply_unified_diff("b", "@@ -0,0 +1,2 @@\n--- a/f\n+a\n+").unwrap(), "a\nb");
}

#[test]
fn a_header_without_counts_leaves_file_headers_out() {
    assert_eq!(apply_unified_diff("a", "@@\n--- a/f\n+++ b/f\n-a\n+b").unwrap(), "b");
    assert_eq!(apply_unified_diff("a", "@@ ... @@\n---\n-a\n+b").unwrap(), "b");
}

#[test]
fn lines_beyond_the_counts_still_belong_to_the_hunk() {
    assert_eq!(apply_unified_diff("a\nb", "@@ -1 +1 @@\n-a\n-b\n+c\n+d").unwrap(), "c\nd");
}

#[test]
fn stacked_diffs_apply_in_turn() {
    let first = "@@ -1 +1 @@\n-a\n+b";
    let second = "@@ -1 +1 @@\n-b\n+c";
    let halfway = apply_unified_diff("a", first).unwrap();
    let end = apply_unified_diff(&halfway, second).unwrap();
    assert_eq!(end, "c");
    assert_eq!(apply_unified_diff("a", &format!("{first}\n{second}")).unwrap(), end);
}

#[test]
fn stacked_patches_apply_in_turn() {
    for ending in ["", "\n", "\r", "\r\n"] {
        let first = format!("<<<<<<< SEARCH\na\n=======\nb\n>>>>>>> REPLACE{ending}");
        let second = "<<<<<<< SEARCH\nb\n=======\nc\n>>>>>>> REPLACE";
        for multiple in [false, true] {
            let halfway = apply_search_replace("a", &first, multiple).unwrap();
            let end = apply_search_replace(&halfway, second, multiple).unwrap();
            assert_eq!(end, "c");
            let both = format!("{first}\n{second}");
            assert_eq!(apply_search_replace("a", &both, multiple).unwrap(), end);
        }
    }
}

#[test]
fn an_unambiguous_patch_is_the_same_either_way() {
    let patch = "<<<<<<< SEARCH\na\n=======\nb\n>>>>>>> REPLACE\n<<<<<<< SEARCH\nb\n=======\nc\n>>>>>>> REPLACE";
    let one = apply_search_replace("x\na", patch, false).unwrap();
    assert_eq!(one, "x\nc");
    assert_eq!(apply_search_replace("x\na", patch, true).unwrap(), one);
}

#[test]
fn a_hunk_is_rebuilt_whatever_its_lines_begin_with() {
    let lines = [" ", "-", "--", "---", "+", "++", "+++", "@@", "\\", "x"];
    for old in lines {
        for new in lines {
            let patch = format!("@@ -7,2 +7,2 @@\n {old}\n-{old}\n+{new}");
            let out = apply_unified_diff(&format!("a\n{old}\n{old}\nb"), &patch).unwrap();
            assert_eq!(out, format!("a\n{old}\n{new}\nb"));
        }
    }
}

#[test]
fn a_header_that_counts_wrong_leaves_file_headers_out() {
    // Three lines are counted where one follows, before the names of the next file.
    let patch = "@@ -1,3 +1,3 @@\n-one\n+two\n--- a/g\n+++ b/g\n@@ -2 +2 @@\n-three\n+four";
    assert_eq!(apply_unified_diff("one\nthree", patch).unwrap(), "two\nfour");
    // Counted up to the end of the patch, and still too many.
    let patch = "@@ -1,4 +1,4 @@\n-one\n+two\n--- a/g\n+++ b/g";
    assert_eq!(apply_unified_diff("one", patch).unwrap(), "two");
    // One more line goes than is counted.
    let patch = "@@ -1 +1,2 @@\n-one\n-two\n+three\n+++ b/g";
    assert_eq!(apply_unified_diff("one\ntwo", patch).unwrap(), "three");
    // The lines of the next hunk are not counted in.
    let patch = "@@ -1,2 +1,2 @@\n-one\n+two\n--- a/g\n@@ -2 +2 @@\n-three\n+four";
    assert_eq!(apply_unified_diff("one\nthree", patch).unwrap(), "two\nfour");
}

#[test]
fn a_line_without_a_sign_is_not_counted() {
    let patch = "@@ -1,2 +1 @@\n a\n\\ No newline at end of file\n---";
    assert_eq!(apply_unified_diff("a\n--", patch).unwrap(), "a");
}
