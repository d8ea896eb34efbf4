//! Reading the staged change from what git wrote.

use lede::git::{
    diff_args, raw_summary, staged_change, truncate_diff, GitError, StagedChange, MAX_DIFF_BYTES,
};
use lede::process::Output;

fn wrote(stdout: &str) -> Result<Output, String> {
    Ok(Output {
        success: true,
        stdout: stdout.as_bytes().to_vec(),
        stderr: Vec::new(),
    })
}

/// What git writes for one entry and its patch.
fn staged(entry: &str, patch: &str) -> Result<StagedChange, GitError> {
    staged_change(wrote(&format!("{entry}\n\n{patch}")))
}

#[test]
fn a_small_diff_is_left_alone() {
    assert_eq!(truncate_diff("small".into(), 100), "small");
    let exact = "x".repeat(100);
    assert_eq!(truncate_diff(exact.clone(), 100), exact);
}

#[test]
fn truncation_cuts_at_a_line_boundary() {
    let diff = format!("{}\nline two is cut off here", "a".repeat(50));
    let out = truncate_diff(diff, 60);
    assert!(out.starts_with(&"a".repeat(50)));
    assert!(!out.contains("line two"));
    assert!(out.contains("[diff truncated"));
}

#[test]
fn truncation_never_splits_a_codepoint() {
    let diff = "é".repeat(100); // 2 bytes each
    let out = truncate_diff(diff, 99);
    assert!(out.contains("[diff truncated"));
    assert!(out.starts_with(&"é".repeat(49)));
}

#[test]
fn truncation_says_how_much_is_shown() {
    let diff = format!("{}\n{}", "a".repeat(2000), "b".repeat(2000));
    assert_eq!(
        truncate_diff(diff, 2500),
        format!(
            "{}\n\n[diff truncated: showing first 2 KiB of 4 KiB]",
            "a".repeat(2000)
        )
    );
    assert_eq!(
        truncate_diff("ab".to_owned(), 0),
        "\n\n[diff truncated: showing first 0 KiB of 1 KiB]"
    );
    assert_eq!(
        truncate_diff("→→".to_owned(), 5),
        "→\n\n[diff truncated: showing first 1 KiB of 1 KiB]"
    );
}

#[test]
fn a_staged_change_yields_its_summary_and_diff() {
    let change = staged(
        ":100644 100644 ce01362 3b18e51 M\thello.txt",
        "diff --git a/hello.txt b/hello.txt\n--- a/hello.txt\n+++ b/hello.txt\n\
         @@ -1 +1 @@\n-hello\n+hello world\n",
    )
    .unwrap();
    assert_eq!(change.summary, "M\thello.txt");
    assert!(change.diff.contains("+hello world"));
    assert!(change.diff.contains("-hello"));
}

#[test]
fn staged_files_before_the_first_commit_still_diff() {
    let change = staged(
        ":000000 100644 0000000 8a0b1b0 A\tnew.txt",
        "diff --git a/new.txt b/new.txt\n@@ -0,0 +1 @@\n+brand new\n",
    )
    .unwrap();
    assert_eq!(change.summary, "A\tnew.txt");
    assert!(change.diff.contains("+brand new"));
}

#[test]
fn unstaged_changes_alone_are_nothing_staged() {
    let err = staged_change(wrote("")).unwrap_err();
    assert!(err.message().contains("nothing staged"));
}

#[test]
fn a_rename_has_both_paths_in_its_summary() {
    let change = staged(
        ":100644 100644 6b4e3d1 6b4e3d1 R100\told.txt\tnew.txt",
        "diff --git a/old.txt b/new.txt\nsimilarity index 100%\n",
    )
    .unwrap();
    assert_eq!(change.summary, "R100\told.txt\tnew.txt");
}

#[test]
fn a_unicode_path_is_kept_in_the_summary() {
    let change = staged(
        ":000000 100644 0000000 3f1a8c7 A\t\"caf\\303\\251.txt\"",
        "diff --git a/x b/x\n+coffee\n",
    )
    .unwrap();
    assert!(change.summary.starts_with("A\t"));
    assert!(change.summary.contains("caf"));
    assert!(change.diff.contains("+coffee"));
}

#[test]
fn a_large_staged_patch_is_truncated() {
    let change = staged(
        ":000000 100644 0000000 1111111 A\tlarge.txt",
        &format!("+{}\n", "x".repeat(MAX_DIFF_BYTES + 1024)),
    )
    .unwrap();
    assert_eq!(change.summary, "A\tlarge.txt");
    assert!(change.diff.contains("[diff truncated"));
    assert!(change
        .diff
        .ends_with("[diff truncated: showing first 64 KiB of 66 KiB]"));
}

#[test]
fn a_summary_has_a_line_for_each_entry() {
    let raw = ":100644 100644 a b M\ta.rs\n:000000 100644 0 c A\tb c.rs";
    assert_eq!(raw_summary(raw).unwrap(), "M\ta.rs\nA\tb c.rs");
    assert_eq!(raw_summary("").unwrap(), "");
}

#[test]
fn an_entry_without_a_path_is_an_error() {
    let err = raw_summary(":100644 100644 a b M").unwrap_err();
    assert_eq!(err.message(), "raw diff entry has no path");
    assert!(matches!(
        raw_summary("M\ta\nbroken").unwrap_err(),
        GitError::NoPath
    ));
}

#[test]
fn an_entry_without_a_status_is_an_error() {
    let err = raw_summary(" \ta.rs").unwrap_err();
    assert_eq!(err.message(), "raw diff entry has no status");
}

#[test]
fn the_first_broken_entry_decides() {
    assert!(matches!(
        raw_summary("\ta\nbroken").unwrap_err(),
        GitError::NoStatus
    ));
}

#[test]
fn output_without_a_blank_line_is_an_error() {
    let err = staged_change(wrote(":1 1 a b M\ta.rs\n")).unwrap_err();
    assert_eq!(err.message(), "failed to parse staged diff");
}

#[test]
fn the_first_blank_line_parts_the_entries_from_the_patch() {
    let change = staged(":1 1 a b M\ta.rs", "one\n\ntwo\n").unwrap();
    assert_eq!(change.diff, "one\n\ntwo\n");
}

#[test]
fn git_that_does_not_start_is_an_error() {
    let err = staged_change(Err("No such file or directory".to_owned())).unwrap_err();
    assert_eq!(
        err.message(),
        "failed to run git; is it installed?: No such file or directory"
    );
}

#[test]
fn git_that_fails_passes_its_words_on() {
    let err = staged_change(Ok(Output {
        success: false,
        stdout: Vec::new(),
        stderr: b"fatal: not a git repository\n".to_vec(),
    }))
    .unwrap_err();
    assert_eq!(
        err.message(),
        "git diff --cached --raw --patch --no-color --no-ext-diff -M failed: \
         fatal: not a git repository"
    );
}

#[test]
fn git_is_asked_for_the_staged_state() {
    assert_eq!(
        diff_args(),
        vec![
            "diff",
            "--cached",
            "--raw",
            "--patch",
            "--no-color",
            "--no-ext-diff",
            "-M"
        ]
    );
}

#[test]
fn bytes_that_are_no_text_are_replaced() {
    let mut stdout = b":1 1 a b M\ta.rs\n\n+".to_vec();
    stdout.push(0xff);
    let change = staged_change(Ok(Output {
        success: true,
        stdout,
        stderr: Vec::new(),
    }))
    .unwrap();
    assert_eq!(change.diff, "+\u{fffd}");
}
