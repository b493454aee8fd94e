use git_ai::attribution::{compress, Author, FileAttribution};
use git_ai::attribution::VirtualAttributions;
use git_ai::blame::{annotate, find_entry, resolve_line_origin, AuthorshipLogEntry, BlameLine, LineOrigin};
use git_ai::blame_args::parse_blame_args;

fn native(commit: &str, author: &str, n: usize, content: &str) -> BlameLine {
    BlameLine {
        commit: commit.to_string(),
        author: author.to_string(),
        author_mail: "<test@example.com>".to_string(),
        author_time: 1_700_000_000,
        author_tz: "+0000".to_string(),
        summary: "Initial commit".to_string(),
        filename: "test.txt".to_string(),
        orig_line: n,
        final_line: n,
        boundary: true,
        content: content.to_string(),
    }
}

fn same_but_author(a: &BlameLine, b: &BlameLine) -> bool {
    a.commit == b.commit
        && a.author_time == b.author_time
        && a.author_tz == b.author_tz
        && a.summary == b.summary
        && a.filename == b.filename
        && a.orig_line == b.orig_line
        && a.final_line == b.final_line
        && a.boundary == b.boundary
        && a.content == b.content
}

fn same(a: &BlameLine, b: &BlameLine) -> bool {
    same_but_author(a, b) && a.author == b.author && a.author_mail == b.author_mail
}

fn mixed_entry() -> AuthorshipLogEntry {
    let authors = vec![
        Author::Human("Test User".to_string()),
        Author::Human("Test User".to_string()),
        Author::Ai { tool: "mock_ai".to_string(), model: Some("m".to_string()), prompt_id: "p".to_string() },
        Author::Ai { tool: "mock_ai".to_string(), model: Some("m".to_string()), prompt_id: "p".to_string() },
    ];
    AuthorshipLogEntry {
        commit: "abc1234567".to_string(),
        files: vec![FileAttribution {
            path: "test.txt".to_string(),
            lines: vec!["Line 1".into(), "Line 2".into(), "Line 3".into(), "Line 4".into()],
            ranges: compress(&authors),
        }],
    }
}

fn four_native() -> Vec<BlameLine> {
    (1..=4).map(|n| native("abc1234567", "Test User", n, &format!("Line {}", n))).collect()
}

fn entries(e: Option<AuthorshipLogEntry>) -> Vec<AuthorshipLogEntry> {
    e.into_iter().collect()
}

#[test]
fn test_blame_with_ai_authorship() {
    let lines = four_native();
    let out = annotate(&lines, &entries(Some(mixed_entry())), false, false);
    assert!(same(&out[0], &lines[0]));
    assert!(same(&out[1], &lines[1]));
    assert_eq!(out[2].author, "mock_ai");
    assert_eq!(out[3].author, "mock_ai");
    assert_eq!(out[3].author_mail, "<mock_ai>");
    assert!(same_but_author(&out[2], &lines[2]));
    assert!(same_but_author(&out[3], &lines[3]));
}

#[test]
fn test_blame_contents_from_stdin() {
    let piped = git_ai::text::split_lines("Changed\nLine 2\nLine 3\nLine 4 NEW\n");
    let lines: Vec<BlameLine> =
        piped.iter().enumerate().map(|(i, c)| native("abc1234567", "Test User", i + 1, c)).collect();
    for mark in [false, true] {
        let out = annotate(&lines, &entries(Some(mixed_entry())), mark, true);
        assert_eq!(out.len(), 4);
        for (o, n) in out.iter().zip(lines.iter()) {
            assert!(o.commit.starts_with("0000000"));
            assert_eq!(o.commit.len(), 40);
            assert_eq!(o.author, "External file (--contents)");
            assert_eq!(o.content, n.content);
        }
        assert_eq!(out[3].content, "Line 4 NEW");
    }
}

#[test]
fn test_blame_mark_unknown_without_authorship_log() {
    let lines = vec![native("def", "Test User", 1, "Line from untracked commit")];
    let without = annotate(&lines, &entries(None), false, false);
    assert_eq!(without[0].author, "Test User");
    let with = annotate(&lines, &entries(None), true, false);
    assert_eq!(with[0].author, "Unknown");
    assert!(!with[0].author.contains("Test User"));
    assert!(!with[0].author_mail.contains("test@example.com"));
}

#[test]
fn test_blame_mark_unknown_mixed_commits() {
    let untracked = vec![native("def", "Test User", 1, "Untracked line")];
    let out1 = annotate(&untracked, &entries(None), true, false);
    assert_eq!(out1[0].author, "Unknown");

    let entry = AuthorshipLogEntry {
        commit: "abc1234567".to_string(),
        files: vec![FileAttribution {
            path: "tracked.txt".to_string(),
            lines: vec!["Tracked human line".into(), "Tracked AI line".into()],
            ranges: compress(&vec![
                Author::Human("Test User".to_string()),
                Author::Ai { tool: "mock_ai".to_string(), model: None, prompt_id: "p".to_string() },
            ]),
        }],
    };
    let mut recorded = vec![native("abc1234567", "Test User", 1, "Tracked human line"), native("abc1234567", "Test User", 2, "Tracked AI line")];
    for l in recorded.iter_mut() {
        l.filename = "tracked.txt".to_string();
    }
    let out2 = annotate(&recorded, &entries(Some(entry)), true, false);
    assert!(out2[0].author.contains("Test User"));
    assert!(out2[1].author.contains("mock_ai"));
}

#[test]
fn test_blame_mark_unknown_backward_compatible() {
    let lines = vec![native("def", "Test User", 1, "Line 1"), native("def", "Test User", 2, "Line 2")];
    let out = annotate(&lines, &entries(None), false, false);
    for (o, n) in out.iter().zip(lines.iter()) {
        assert!(same(o, n));
    }
}

#[test]
fn human_only_file_is_unchanged() {
    let entry = AuthorshipLogEntry {
        commit: "abc1234567".to_string(),
        files: vec![FileAttribution {
            path: "test.txt".to_string(),
            lines: vec!["Line 1".into(), "Line 2".into(), "Line 3".into(), "Line 4".into()],
            ranges: compress(&vec![Author::Human("Someone".to_string()); 4]),
        }],
    };
    let lines = four_native();
    for mark in [false, true] {
        let out = annotate(&lines, &entries(Some(entry.clone())), mark, false);
        for (o, n) in out.iter().zip(lines.iter()) {
            assert!(same(o, n));
        }
    }
}

#[test]
fn mark_unknown_leaves_recorded_lines_alone() {
    let lines = four_native();
    let a = annotate(&lines, &entries(Some(mixed_entry())), false, false);
    let b = annotate(&lines, &entries(Some(mixed_entry())), true, false);
    for (x, y) in a.iter().zip(b.iter()) {
        assert!(same(x, y));
    }
}

#[test]
fn resolve_reports_each_origin_kind() {
    let entry = mixed_entry();
    let path = "test.txt".to_string();
    assert!(matches!(resolve_line_origin(None, &path, 1), LineOrigin::Unrecorded));
    assert!(matches!(resolve_line_origin(Some(&entry), &path, 1), LineOrigin::Human));
    match resolve_line_origin(Some(&entry), &path, 3) {
        LineOrigin::Ai { tool, model } => {
            assert_eq!(tool, "mock_ai");
            assert_eq!(model.as_deref(), Some("m"));
        }
        other => panic!("expected an AI origin, got {:?}", other),
    }
    assert!(matches!(resolve_line_origin(Some(&entry), &path, 0), LineOrigin::Unresolved));
    assert!(matches!(resolve_line_origin(Some(&entry), &path, 5), LineOrigin::Unresolved));
    assert!(matches!(resolve_line_origin(Some(&entry), &"other.txt".to_string(), 1), LineOrigin::Human));
}

#[test]
fn lines_of_other_commits_are_unrecorded() {
    let mut lines = four_native();
    lines[1].commit = "fff0000".to_string();
    let out = annotate(&lines, &entries(Some(mixed_entry())), true, false);
    assert!(same(&out[0], &lines[0]));
    assert_eq!(out[1].author, "Unknown");
    assert_eq!(out[1].author_mail, "<unknown>");
    assert_eq!(out[2].author, "mock_ai");
}

#[test]
fn find_entry_by_commit() {
    let mut other = mixed_entry();
    other.commit = "zzz".to_string();
    let list = vec![other, mixed_entry()];
    assert_eq!(find_entry(&list, &"abc1234567".to_string()), Some(1));
    assert_eq!(find_entry(&list, &"nope".to_string()), None);
}

#[test]
fn finalized_attribution_resolves_per_line() {
    let ai = Author::Ai { tool: "mock_ai".to_string(), model: None, prompt_id: "p".to_string() };
    let f = FileAttribution {
        path: "test.txt".to_string(),
        lines: vec!["a".into(), "b".into()],
        ranges: compress(&vec![Author::Human("Test User".to_string()), ai]),
    };
    let va = VirtualAttributions::new("b".into(), "h".into(), vec![f], vec![], None).unwrap();
    let entry = AuthorshipLogEntry::from_attributions("c1".to_string(), va);
    assert_eq!(entry.commit, "c1");
    assert!(matches!(resolve_line_origin(Some(&entry), &"test.txt".to_string(), 1), LineOrigin::Human));
    assert!(matches!(resolve_line_origin(Some(&entry), &"test.txt".to_string(), 2), LineOrigin::Ai { .. }));
}

#[test]
fn blame_args_strip_engine_flags() {
    let args: Vec<String> = ["--mark-unknown", "--abbrev", "4", "--date", "short", "-L", "2,4", "test.txt"]
        .iter()
        .map(|s| s.to_string())
        .collect();
    let o = parse_blame_args(&args);
    assert!(o.mark_unknown);
    assert!(!o.contents_from_stdin);
    assert_eq!(o.native_args, vec!["--abbrev=4", "--date=short", "-L", "2,4", "test.txt"]);
}

#[test]
fn blame_args_keep_equals_form_and_contents() {
    let args: Vec<String> = ["--abbrev=4", "--contents", "-", "test.txt", "--date"]
        .iter()
        .map(|s| s.to_string())
        .collect();
    let o = parse_blame_args(&args);
    assert!(!o.mark_unknown);
    assert!(o.contents_from_stdin);
    assert_eq!(o.native_args, vec!["--abbrev=4", "--contents", "-", "test.txt", "--date"]);
}

#[test]
fn blame_args_without_flags() {
    let o = parse_blame_args(&vec![]);
    assert!(!o.mark_unknown && !o.contents_from_stdin && o.native_args.is_empty());
    let o = parse_blame_args(&vec!["--contents".to_string()]);
    assert!(!o.contents_from_stdin);
}
