use git_ai::attribution::{
    compress, expand_ranges, ranges_valid, AttributionError, Author, FileAttribution, PromptRecord,
    RangeRecord, VirtualAttributions,
};
use git_ai::text::split_lines;

fn human(name: &str) -> Author {
    Author::Human(name.to_string())
}

fn ai(tool: &str, prompt: &str) -> Author {
    Author::Ai { tool: tool.to_string(), model: None, prompt_id: prompt.to_string() }
}

fn rec(author: Author, start: usize, end: usize) -> RangeRecord {
    RangeRecord { author, start, end }
}

fn file(path: &str, lines: &[&str], ranges: Vec<RangeRecord>) -> FileAttribution {
    FileAttribution {
        path: path.to_string(),
        lines: lines.iter().map(|l| l.to_string()).collect(),
        ranges,
    }
}

#[test]
fn split_lines_drops_newlines() {
    let lines = split_lines("Changed\nLine 2\nLine 3\nLine 4 NEW\n");
    assert_eq!(lines, vec!["Changed", "Line 2", "Line 3", "Line 4 NEW"]);
}

#[test]
fn split_lines_keeps_unterminated_last_line() {
    assert_eq!(split_lines("a\nb"), vec!["a", "b"]);
    assert_eq!(split_lines("a\n\nb\n"), vec!["a", "", "b"]);
}

#[test]
fn split_lines_of_empty_content() {
    assert!(split_lines("").is_empty());
    assert_eq!(split_lines("\n"), vec![""]);
}

#[test]
fn compress_merges_runs() {
    let authors = vec![human("a"), human("a"), ai("mock_ai", "prompt_a"), ai("mock_ai", "prompt_a"), human("a")];
    let ranges = compress(&authors);
    assert_eq!(ranges.len(), 3);
    assert_eq!((ranges[0].start, ranges[0].end), (0, 2));
    assert_eq!((ranges[1].start, ranges[1].end), (2, 4));
    assert_eq!((ranges[2].start, ranges[2].end), (4, 5));
    assert!(ranges[1].author.is_ai());
    assert!(ranges_valid(&ranges, 5));
}

#[test]
fn compress_of_no_lines_is_empty() {
    assert!(compress(&Vec::new()).is_empty());
    assert!(ranges_valid(&Vec::new(), 0));
}

#[test]
fn expand_inverts_compress() {
    let authors = vec![human("a"), ai("t", "p"), ai("t", "q"), human("b")];
    let back = expand_ranges(&compress(&authors));
    assert_eq!(back.len(), 4);
    for (x, y) in back.iter().zip(authors.iter()) {
        assert!(x.same_as(y));
    }
}

#[test]
fn ranges_valid_rejects_gaps_overlaps_and_short_cover() {
    assert!(ranges_valid(&vec![rec(human("a"), 0, 2), rec(human("b"), 2, 3)], 3));
    assert!(!ranges_valid(&vec![rec(human("a"), 0, 2), rec(human("b"), 3, 4)], 4));
    assert!(!ranges_valid(&vec![rec(human("a"), 0, 2), rec(human("b"), 1, 3)], 3));
    assert!(!ranges_valid(&vec![rec(human("a"), 0, 2)], 3));
    assert!(!ranges_valid(&vec![rec(human("a"), 1, 3)], 3));
    assert!(!ranges_valid(&vec![rec(human("a"), 0, 0), rec(human("a"), 0, 1)], 1));
    assert!(!ranges_valid(&Vec::new(), 1));
}

#[test]
fn new_accepts_well_formed_data() {
    let f = file("a.txt", &["x", "y"], vec![rec(human("a"), 0, 1), rec(ai("t", "p"), 1, 2)]);
    let p = PromptRecord { id: "p".to_string(), tool: "t".to_string(), model: None, timestamp: 7 };
    let va = VirtualAttributions::new("base".into(), "head".into(), vec![f], vec![p], None).unwrap();
    assert_eq!(va.files(), vec!["a.txt".to_string()]);
    assert!(!va.is_empty());
}

#[test]
fn new_rejects_malformed_ranges_as_store_corrupt() {
    let f = file("a.txt", &["x", "y"], vec![rec(human("a"), 0, 1)]);
    let r = VirtualAttributions::new("b".into(), "h".into(), vec![f], vec![], None);
    assert_eq!(r.err(), Some(AttributionError::StoreCorrupt));
}

#[test]
fn new_rejects_duplicate_paths_and_prompt_ids() {
    let f1 = file("a.txt", &["x"], vec![rec(human("a"), 0, 1)]);
    let f2 = file("a.txt", &["y"], vec![rec(human("a"), 0, 1)]);
    let r = VirtualAttributions::new("b".into(), "h".into(), vec![f1, f2], vec![], None);
    assert_eq!(r.err(), Some(AttributionError::StoreCorrupt));
    let p = PromptRecord { id: "p".to_string(), tool: "t".to_string(), model: None, timestamp: 1 };
    let r = VirtualAttributions::new("b".into(), "h".into(), vec![], vec![p.clone(), p], None);
    assert_eq!(r.err(), Some(AttributionError::StoreCorrupt));
}

#[test]
fn empty_attributions_have_no_files() {
    let va = VirtualAttributions::empty("b".into(), "h".into());
    assert!(va.is_empty());
    assert!(va.files().is_empty());
}
