use git_ai::attribution::{expand_ranges, Author, FileAttribution, PromptRecord, VirtualAttributions};
use git_ai::merge::merge_favoring_first;

fn human(name: &str) -> Author {
    Author::Human(name.to_string())
}

fn ai(tool: &str, prompt: &str) -> Author {
    Author::Ai { tool: tool.to_string(), model: Some("m1".to_string()), prompt_id: prompt.to_string() }
}

fn file(path: &str, lines: &[&str], authors: Vec<Author>) -> FileAttribution {
    FileAttribution {
        path: path.to_string(),
        lines: lines.iter().map(|l| l.to_string()).collect(),
        ranges: git_ai::attribution::compress(&authors),
    }
}

fn prompt(id: &str, tool: &str) -> PromptRecord {
    PromptRecord { id: id.to_string(), tool: tool.to_string(), model: None, timestamp: 100 }
}

fn va(files: Vec<FileAttribution>, prompts: Vec<PromptRecord>, fallback: Option<&str>) -> VirtualAttributions {
    VirtualAttributions::new("old".into(), "old".into(), files, prompts, fallback.map(|s| s.to_string()))
        .unwrap()
}

fn finals(entries: &[(&str, &str)]) -> Vec<(String, String)> {
    entries.iter().map(|(p, c)| (p.to_string(), c.to_string())).collect()
}

fn authors_of(v: &VirtualAttributions, path: &str) -> Vec<Author> {
    let f = v.files.iter().find(|f| f.path == path).unwrap();
    expand_ranges(&f.ranges)
}

fn is(a: &Author, b: &Author) -> bool {
    a.same_as(b)
}

#[test]
fn primary_wins_on_conflicting_line() {
    let p = va(vec![file("f", &["x", "y"], vec![ai("mock_ai", "prompt_a"), human("me")])], vec![prompt("prompt_a", "mock_ai")], Some("me"));
    let s = va(vec![file("f", &["x", "y"], vec![human("other"), ai("tool_b", "prompt_b")])], vec![prompt("prompt_b", "tool_b")], None);
    let m = merge_favoring_first(&p, &s, &finals(&[("f", "x\ny\n")]), &"new".to_string());
    let a = authors_of(&m, "f");
    assert!(is(&a[0], &ai("mock_ai", "prompt_a")));
    assert!(is(&a[1], &human("me")));
    assert_eq!(m.prompts.len(), 1);
    assert_eq!(m.prompts[0].id, "prompt_a");
    assert_eq!(m.head, "new");
    assert_eq!(m.base_commit, "new");
}

#[test]
fn secondary_fills_lines_primary_lacks() {
    let p = va(vec![file("f", &["x"], vec![ai("mock_ai", "prompt_a")])], vec![prompt("prompt_a", "mock_ai")], Some("me"));
    let s = va(vec![file("f", &["z"], vec![ai("tool_b", "prompt_b")])], vec![prompt("prompt_b", "tool_b")], None);
    let m = merge_favoring_first(&p, &s, &finals(&[("f", "z\nx\nnew line\n")]), &"new".to_string());
    let a = authors_of(&m, "f");
    assert_eq!(a.len(), 3);
    assert!(is(&a[0], &ai("tool_b", "prompt_b")));
    assert!(is(&a[1], &ai("mock_ai", "prompt_a")));
    assert!(is(&a[2], &human("me")));
    let ids: Vec<&str> = m.prompts.iter().map(|p| p.id.as_str()).collect();
    assert_eq!(ids, vec!["prompt_a", "prompt_b"]);
}

#[test]
fn empty_secondary_realigns_primary() {
    let p = va(
        vec![file("f", &["a", "b", "c"], vec![human("me"), ai("mock_ai", "prompt_a"), ai("mock_ai", "prompt_a")])],
        vec![prompt("prompt_a", "mock_ai"), prompt("unused", "mock_ai")],
        Some("me"),
    );
    let s = VirtualAttributions::empty("new".into(), "new".into());
    let m = merge_favoring_first(&p, &s, &finals(&[("f", "c\na\nb\nd")]), &"new".to_string());
    let a = authors_of(&m, "f");
    assert_eq!(m.files[0].lines, vec!["c", "a", "b", "d"]);
    assert!(is(&a[0], &ai("mock_ai", "prompt_a")));
    assert!(is(&a[1], &human("me")));
    assert!(is(&a[2], &ai("mock_ai", "prompt_a")));
    assert!(is(&a[3], &human("me")));
    assert_eq!(m.prompts.len(), 1);
    assert_eq!(m.prompts[0].id, "prompt_a");
}

#[test]
fn files_without_data_or_content_are_left_out() {
    let p = va(vec![file("f", &["x"], vec![human("me")]), file("gone", &["y"], vec![human("me")])], vec![], Some("me"));
    let s = VirtualAttributions::empty("new".into(), "new".into());
    let m = merge_favoring_first(&p, &s, &finals(&[("f", "x\n"), ("untracked", "q\n")]), &"new".to_string());
    assert_eq!(m.files(), vec!["f".to_string()]);
}

#[test]
fn unmatched_line_without_fallback_gets_empty_identity() {
    let p = va(vec![file("f", &["x"], vec![ai("mock_ai", "prompt_a")])], vec![prompt("prompt_a", "mock_ai")], None);
    let s = VirtualAttributions::empty("new".into(), "new".into());
    let m = merge_favoring_first(&p, &s, &finals(&[("f", "other\n")]), &"new".to_string());
    let a = authors_of(&m, "f");
    assert!(is(&a[0], &human("")));
    assert!(m.prompts.is_empty());
}

#[test]
fn secondary_prompt_record_used_when_primary_lacks_it() {
    let p = va(vec![], vec![], Some("me"));
    let s = va(vec![file("f", &["x"], vec![ai("tool_b", "prompt_b")])], vec![prompt("prompt_b", "tool_b")], None);
    let m = merge_favoring_first(&p, &s, &finals(&[("f", "x")]), &"new".to_string());
    assert_eq!(m.prompts.len(), 1);
    assert_eq!(m.prompts[0].tool, "tool_b");
}

#[test]
fn merged_ranges_are_gap_free() {
    let p = va(vec![file("f", &["a", "b"], vec![human("me"), ai("mock_ai", "prompt_a")])], vec![prompt("prompt_a", "mock_ai")], Some("me"));
    let s = VirtualAttributions::empty("new".into(), "new".into());
    let m = merge_favoring_first(&p, &s, &finals(&[("f", "a\nb\nb\na\n")]), &"new".to_string());
    let f = &m.files[0];
    assert!(git_ai::attribution::ranges_valid(&f.ranges, f.lines.len()));
    assert_eq!(f.ranges.len(), 3);
}

#[test]
fn repeated_lines_align_copy_by_copy() {
    let p = va(
        vec![file("f", &["}", "x", "}"], vec![human("me"), human("me"), ai("mock_ai", "prompt_a")])],
        vec![prompt("prompt_a", "mock_ai")],
        Some("me"),
    );
    let s = VirtualAttributions::empty("new".into(), "new".into());
    let m = merge_favoring_first(&p, &s, &finals(&[("f", "}\nx\n}\n}\n")]), &"new".to_string());
    let a = authors_of(&m, "f");
    assert!(is(&a[0], &human("me")));
    assert!(is(&a[1], &human("me")));
    assert!(is(&a[2], &ai("mock_ai", "prompt_a")));
    assert!(is(&a[3], &human("me")));
}

#[test]
fn secondary_only_file_is_adopted_verbatim() {
    let p = va(vec![], vec![], Some("me"));
    let s = va(vec![file("g", &["a", "a"], vec![human("other"), ai("tool_b", "prompt_b")])], vec![prompt("prompt_b", "tool_b")], None);
    let m = merge_favoring_first(&p, &s, &finals(&[("g", "a\na\n")]), &"new".to_string());
    let a = authors_of(&m, "g");
    assert!(is(&a[0], &human("other")));
    assert!(is(&a[1], &ai("tool_b", "prompt_b")));
}
