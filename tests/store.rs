use git_ai::attribution::{compress, Author, FileAttribution, VirtualAttributions};
use git_ai::pull::InitialAttributions;
use git_ai::store::WorkingLog;

fn attributions() -> VirtualAttributions {
    let f = FileAttribution {
        path: "a.txt".into(),
        lines: vec!["x".into()],
        ranges: compress(&vec![Author::Human("me".into())]),
    };
    VirtualAttributions::new("base".into(), "base".into(), vec![f], vec![], None).unwrap()
}

fn initial(n: usize) -> InitialAttributions {
    let mut files = Vec::new();
    for i in 0..n {
        files.push(FileAttribution {
            path: format!("f{}.txt", i),
            lines: vec!["x".into()],
            ranges: compress(&vec![Author::Human("me".into())]),
        });
    }
    InitialAttributions { files, prompts: vec![] }
}

#[test]
fn write_initial_twice_is_one_write() {
    let mut log = WorkingLog::new("base".into());
    log.write_initial(initial(2));
    log.write_initial(initial(2));
    assert_eq!(log.initial.as_ref().map(|i| i.files.len()), Some(2));
    assert_eq!(log.base_commit, "base");
    assert!(log.episodes.is_empty());
}

#[test]
fn write_initial_replaces_slot() {
    let mut log = WorkingLog::new("base".into());
    log.write_initial(initial(2));
    log.write_initial(initial(1));
    assert_eq!(log.initial.as_ref().map(|i| i.files.len()), Some(1));
}

#[test]
fn checkout_same_base_keeps_log() {
    let mut log = WorkingLog::new("base".into());
    log.write_initial(initial(1));
    log.append_episode(attributions());
    log.checkout("base".into());
    assert!(log.initial.is_some());
    assert_eq!(log.episodes.len(), 1);
}

#[test]
fn checkout_other_base_discards_log() {
    let mut log = WorkingLog::new("base".into());
    log.write_initial(initial(1));
    log.append_episode(attributions());
    log.checkout("other".into());
    assert_eq!(log.base_commit, "other");
    assert!(log.initial.is_none());
    assert!(log.episodes.is_empty());
}

#[test]
fn finalize_commit_clears_and_records() {
    let mut log = WorkingLog::new("base".into());
    log.write_initial(initial(1));
    log.append_episode(attributions());
    let entry = log.finalize_commit("c1".into(), attributions());
    assert_eq!(entry.commit, "c1");
    assert_eq!(entry.files.len(), 1);
    assert_eq!(entry.files[0].path, "a.txt");
    assert_eq!(log.base_commit, "c1");
    assert!(log.initial.is_none());
    assert!(log.episodes.is_empty());
}
