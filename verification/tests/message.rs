//! Cleaning, splitting, cutting and wrapping a reply.

use lede::chars;
use lede::message::{
    finish, parse, render, sanitize, subject_fits, truncate_subject, width, wrap_body, wrap_line,
    Formatted, BODY_WIDTH, SUBJECT_LIMIT,
};

#[test]
fn sanitize_strips_a_code_fence() {
    let raw = "```\nAdd feature\n\nBody text.\n```";
    assert_eq!(sanitize(raw), "Add feature\n\nBody text.");
}

#[test]
fn sanitize_strips_a_fence_with_a_language_tag() {
    assert_eq!(sanitize("```text\nAdd feature\n```"), "Add feature");
}

#[test]
fn sanitize_strips_wrapping_quotes() {
    assert_eq!(sanitize("\"Add feature\""), "Add feature");
    assert_eq!(sanitize("'Add feature'"), "Add feature");
}

#[test]
fn sanitize_normalizes_crlf() {
    assert_eq!(sanitize("Add feature\r\n\r\nBody."), "Add feature\n\nBody.");
}

#[test]
fn sanitize_keeps_interior_quotes() {
    assert_eq!(sanitize("Rename \"foo\" to bar"), "Rename \"foo\" to bar");
}

#[test]
fn parse_splits_subject_and_body() {
    let message = parse("Add feature\n\nSome body.\nMore body.");
    assert_eq!(message.subject, "Add feature");
    assert_eq!(message.body, "Some body.\nMore body.");
}

#[test]
fn parse_strips_a_trailing_period_from_the_subject() {
    assert_eq!(parse("Add feature.").subject, "Add feature");
}

#[test]
fn parse_skips_leading_blank_lines() {
    let message = parse("\n\nAdd feature\n\nBody.");
    assert_eq!(message.subject, "Add feature");
    assert_eq!(message.body, "Body.");
}

#[test]
fn a_subject_alone_has_an_empty_body() {
    let message = parse("Add feature");
    assert_eq!(message.subject, "Add feature");
    assert_eq!(message.body, "");
}

#[test]
fn truncation_cuts_at_a_word_boundary() {
    let long = "Add a very long subject line that keeps going well past fifty";
    let cut = truncate_subject(long);
    assert!(subject_fits(&cut));
    assert!(!cut.ends_with(' '));
    assert!(long.starts_with(&cut));
    assert_eq!(cut, "Add a very long subject line that keeps going");
}

#[test]
fn truncation_hard_cuts_a_single_long_word() {
    let long = "a".repeat(80);
    assert_eq!(truncate_subject(&long).chars().count(), SUBJECT_LIMIT);
}

#[test]
fn truncation_counts_chars_not_bytes() {
    let long = "é".repeat(60);
    assert_eq!(truncate_subject(&long).chars().count(), SUBJECT_LIMIT);
}

#[test]
fn truncation_leaves_a_short_subject_alone() {
    assert_eq!(truncate_subject("Add feature"), "Add feature");
}

#[test]
fn wrapping_leaves_short_lines_alone() {
    let body = "Short line.\n\nAnother short line.";
    assert_eq!(wrap_body(body), body);
}

#[test]
fn wrapping_holds_every_line_to_72() {
    let body = "word ".repeat(30);
    for line in wrap_body(&body).lines() {
        assert!(line.chars().count() <= BODY_WIDTH, "too long: {line}");
    }
}

#[test]
fn a_wrapped_bullet_gets_a_hanging_indent() {
    let body = format!("- {}", "word ".repeat(30).trim_end());
    let wrapped = wrap_body(&body);
    let mut lines = wrapped.lines();
    assert!(lines.next().unwrap().starts_with("- "));
    for continuation in lines {
        assert!(
            continuation.starts_with("  word"),
            "bad continuation: {continuation:?}"
        );
    }
}

#[test]
fn a_long_token_stays_unbroken() {
    let url = format!("https://example.com/{}", "x".repeat(80));
    let body = format!("See {url} for details");
    assert!(wrap_body(&body).lines().any(|line| line == url));
}

#[test]
fn blank_runs_collapse_to_one() {
    assert_eq!(wrap_body("a\n\n\n\nb"), "a\n\nb");
}

#[test]
fn leading_and_trailing_blanks_drop() {
    assert_eq!(wrap_body("\n\na\n\n"), "a");
}

#[test]
fn a_subject_renders_alone() {
    let message = Formatted {
        subject: "Add feature".into(),
        body: String::new(),
    };
    assert_eq!(render(&message), "Add feature");
}

#[test]
fn a_body_renders_after_one_blank_line() {
    let message = Formatted {
        subject: "Add feature".into(),
        body: "Body.".into(),
    };
    assert_eq!(render(&message), "Add feature\n\nBody.");
}

#[test]
fn white_space_is_what_the_standard_library_says() {
    for c in '\0'..=char::MAX {
        assert_eq!(chars::is_white(c), c.is_whitespace(), "{c:?}");
    }
}

#[test]
fn lines_are_what_the_standard_library_says() {
    for text in ["", "a", "a\n", "a\nb", "a\r\nb\r", "\n\n", "a\n\r\n", "\r\n", "a\r\r\nb"] {
        let source = chars::of(text);
        let found: Vec<String> = chars::lines(&source)
            .into_iter()
            .map(|line| line.iter().collect())
            .collect();
        let expected: Vec<String> = text.lines().map(str::to_owned).collect();
        assert_eq!(found, expected, "{text:?}");
    }
}

#[test]
fn words_are_what_the_standard_library_says() {
    for text in ["", "  ", "a", " a b ", "a\tb\u{a0}c", "é  ü\n"] {
        let source = chars::of(text);
        let found: Vec<String> = chars::words(&source)
            .into_iter()
            .map(|word| word.iter().collect())
            .collect();
        let expected: Vec<String> = text.split_whitespace().map(str::to_owned).collect();
        assert_eq!(found, expected, "{text:?}");
    }
}

#[test]
fn a_width_counts_characters() {
    assert_eq!(width(""), 0);
    assert_eq!(width("é→x"), 3);
}

#[test]
fn a_subject_of_fifty_fits_and_one_more_does_not() {
    assert!(subject_fits(&"x".repeat(50)));
    assert!(!subject_fits(&"x".repeat(51)));
}

#[test]
fn truncation_hard_cuts_to_the_exact_limit() {
    assert_eq!(truncate_subject(&"é".repeat(60)), "é".repeat(50));
    let early = format!("Ab {}", "x".repeat(80));
    assert_eq!(truncate_subject(&early), "Ab");
}

#[test]
fn an_open_fence_is_kept() {
    assert_eq!(sanitize("```\nAdd feature"), "```\nAdd feature");
    assert_eq!(sanitize("```"), "```");
    assert_eq!(sanitize("``````"), "``````");
}

#[test]
fn a_sanitized_reply_is_trimmed() {
    assert_eq!(sanitize(" \n Add feature \r\n"), "Add feature");
    assert_eq!(sanitize("\" Add feature \""), "Add feature");
    assert_eq!(sanitize("```\n\n Add feature\n\n```"), "Add feature");
}

#[test]
fn a_lone_quote_is_kept() {
    assert_eq!(sanitize("\""), "\"");
    assert_eq!(sanitize("\"Add feature"), "\"Add feature");
    assert_eq!(sanitize("'\"Add feature\"'"), "\"Add feature\"");
    assert_eq!(sanitize("\"'Add feature'\""), "'Add feature'");
}

#[test]
fn only_the_outer_pair_of_quotes_goes() {
    assert_eq!(sanitize("\"\"Add feature\"\""), "\"Add feature\"");
    assert_eq!(sanitize("''Add feature''"), "'Add feature'");
    assert_eq!(sanitize("\" 'Add feature' \""), "'Add feature'");
    assert_eq!(sanitize("```\n\"'Add feature'\"\n```"), "'Add feature'");
    assert_eq!(sanitize("\"Add feature'"), "\"Add feature'");
}

#[test]
fn line_endings_do_not_matter() {
    for text in [
        "Add feature\n\nBody.\n",
        "```text\nAdd feature\n\nBody.\n```\n",
        "\"Add feature\n\nBody.\"",
        "\n",
        "",
    ] {
        assert_eq!(sanitize(&text.replace('\n', "\r\n")), sanitize(text), "{text:?}");
    }
}

#[test]
fn wrapping_is_greedy() {
    let line = "  - one three five seventeen a bb ccc dddd eeeee ffffff";
    for limit in 0..60 {
        let rows = wrap_line(line, limit);
        for pair in rows.windows(2) {
            let word = pair[1].split_whitespace().next().unwrap();
            assert!(
                width(&pair[0]) + 1 + width(word) > limit,
                "{limit}: {pair:?}"
            );
        }
    }
    assert_eq!(wrap_line("aa bb", 5), vec!["aa bb"]);
    assert_eq!(wrap_line("aa bb", 4), vec!["aa", "bb"]);
}

#[test]
fn a_blank_reply_parses_to_nothing() {
    let message = parse(" \n\n ");
    assert_eq!(message.subject, "");
    assert_eq!(message.body, "");
}

#[test]
fn a_parsed_body_loses_its_outer_blank_lines() {
    let message = parse("Add feature...\n\n\n  indented  \n\nlast\n\n");
    assert_eq!(message.subject, "Add feature");
    assert_eq!(message.body, "  indented\n\nlast");
}

#[test]
fn a_line_wraps_at_the_limit() {
    assert_eq!(wrap_line("aa bb cc", 5), vec!["aa bb", "cc"]);
    assert_eq!(wrap_line("  aa bb cc", 7), vec!["  aa bb", "  cc"]);
    assert_eq!(wrap_line("- aa bb cc", 7), vec!["- aa bb", "  cc"]);
    assert_eq!(wrap_line("* aa bb", 4), vec!["* aa", "  bb"]);
    assert!(wrap_line("   ", 4).is_empty());
}

#[test]
fn wrapping_twice_is_wrapping_once() {
    let body = format!("- {}\n\n\n{}", "word ".repeat(40), "x".repeat(90));
    let once = wrap_body(&body);
    assert_eq!(wrap_body(&once), once);
}

#[test]
fn wrapping_keeps_the_words() {
    let body = format!("- {}\n\n\n{} tail", "word ".repeat(40), "x".repeat(90));
    let before: Vec<&str> = body.split_whitespace().collect();
    let wrapped = wrap_body(&body);
    let after: Vec<&str> = wrapped.split_whitespace().collect();
    assert_eq!(before, after);
}

#[test]
fn a_rendered_message_parses_to_itself() {
    let message = Formatted {
        subject: "Add feature".into(),
        body: "First.\n\nSecond.".into(),
    };
    let again = parse(&render(&message));
    assert_eq!(again.subject, message.subject);
    assert_eq!(again.body, message.body);

    let indented = Formatted {
        subject: "Add\tfeature".into(),
        body: "  - a\n\n\n    b".into(),
    };
    let again = parse(&render(&indented));
    assert_eq!(again.subject, indented.subject);
    assert_eq!(again.body, indented.body);
}

#[test]
fn a_finished_message_obeys_the_rule() {
    let raw = format!("{}\n\n{}", "word ".repeat(20), "body ".repeat(40));
    let printed = finish(&parse(&sanitize(&raw)));
    let lines: Vec<&str> = printed.lines().collect();
    assert_eq!(lines[0], "word word word word word word word word word word");
    assert_eq!(lines[1], "");
    assert!(lines[2..].iter().all(|line| line.chars().count() <= 72));
    assert!(!lines[2].is_empty());
    assert!(!printed.ends_with('\n'));

    let padded = finish(&parse(&sanitize("Add feature\n\n\n\nBody.\n\n \n")));
    assert_eq!(padded, "Add feature\n\nBody.");
}
