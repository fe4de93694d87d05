use folder_sync::args::parse_args;
use folder_sync::check::Decision;
use folder_sync::entry::{Entry, EntryKind};
use folder_sync::report::SyncReport;
use folder_sync::stamp::Stamp;
use folder_sync::walker::{join, Walker};

fn file(name: &str, seconds: i64) -> Entry {
    Entry::new(name.as_bytes().to_vec(), EntryKind::File(Stamp::new(seconds, 0)))
}

fn dir(name: &str) -> Entry {
    Entry::new(name.as_bytes().to_vec(), EntryKind::Dir)
}

fn path(parts: &[&str]) -> Vec<Vec<u8>> {
    parts.iter().map(|p| p.as_bytes().to_vec()).collect()
}

#[test]
fn join_appends_one_component() {
    assert_eq!(join(&path(&["a", "b"]), &b"c.txt".to_vec()), path(&["a", "b", "c.txt"]));
    assert_eq!(join(&Vec::new(), &b"a".to_vec()), path(&["a"]));
}

#[test]
fn new_walk_starts_at_the_roots() {
    let mut w = Walker::new();
    assert_eq!(w.next_dir(), Some(Vec::new()));
    assert_eq!(w.next_dir(), None);
}

#[test]
fn missing_directory_is_created_then_its_file_copied() {
    // source: a/b.txt; destination: empty
    let mut w = Walker::new();
    let root = w.next_dir().unwrap();
    let steps = w.visit(&root, &vec![dir("a")], &Vec::new());
    assert_eq!(steps.len(), 1);
    assert_eq!(steps[0].path, path(&["a"]));
    assert_eq!(steps[0].decision, Decision::DirMissing);

    let a = w.next_dir().unwrap();
    assert_eq!(a, path(&["a"]));
    let steps = w.visit(&a, &vec![file("b.txt", 10)], &Vec::new());
    assert_eq!(steps.len(), 1);
    assert_eq!(steps[0].path, path(&["a", "b.txt"]));
    assert_eq!(steps[0].decision, Decision::FileMissing);
    assert_eq!(w.next_dir(), None);
}

#[test]
fn older_source_file_is_left_alone() {
    let mut w = Walker::new();
    let root = w.next_dir().unwrap();
    let steps = w.visit(&root, &vec![file("b.txt", 100)], &vec![file("b.txt", 200)]);
    assert_eq!(steps[0].decision, Decision::FileUpToDate);
    assert!(!steps[0].decision.needs_copy());
    assert_eq!(w.next_dir(), None);
}

#[test]
fn nested_directory_below_existing_one() {
    // source: a/b/c.txt; destination: a/
    let mut w = Walker::new();
    let root = w.next_dir().unwrap();
    let steps = w.visit(&root, &vec![dir("a")], &vec![dir("a")]);
    assert_eq!(steps[0].decision, Decision::DirExists);

    let a = w.next_dir().unwrap();
    let steps = w.visit(&a, &vec![dir("b")], &Vec::new());
    assert_eq!(steps[0].path, path(&["a", "b"]));
    assert_eq!(steps[0].decision, Decision::DirMissing);

    let b = w.next_dir().unwrap();
    assert_eq!(b, path(&["a", "b"]));
    let steps = w.visit(&b, &vec![file("c.txt", 5)], &Vec::new());
    assert_eq!(steps[0].path, path(&["a", "b", "c.txt"]));
    assert_eq!(steps[0].decision, Decision::FileMissing);
    assert_eq!(w.next_dir(), None);
}

#[test]
fn one_level_lists_every_entry_and_queues_directories() {
    let mut w = Walker::new();
    let root = w.next_dir().unwrap();
    let src = vec![file("f1", 3), dir("d1"), file("f2", 3), dir("d2"), file("clash", 3)];
    let dest = vec![dir("d2"), file("f2", 4), dir("clash"), file("extra", 1)];
    let steps = w.visit(&root, &src, &dest);
    let decisions: Vec<Decision> = steps.iter().map(|s| s.decision).collect();
    assert_eq!(
        decisions,
        vec![
            Decision::FileMissing,
            Decision::DirMissing,
            Decision::FileUpToDate,
            Decision::DirExists,
            Decision::KindMismatch,
        ]
    );
    // the destination entry without a source counterpart gets no step at all
    assert_eq!(steps.len(), src.len());
    assert!(steps.iter().all(|s| s.path != path(&["extra"])));
    assert_eq!(w.pending, vec![path(&["d1"]), path(&["d2"])]);
    assert_eq!(w.next_dir(), Some(path(&["d2"])));
    assert_eq!(w.next_dir(), Some(path(&["d1"])));
    assert_eq!(w.next_dir(), None);
}

#[test]
fn second_run_after_copies_does_nothing() {
    let src = vec![file("a.txt", 10), dir("d"), file("b.txt", 20)];
    let mut w = Walker::new();
    let root = w.next_dir().unwrap();
    let first = w.visit(&root, &src, &vec![file("b.txt", 15)]);
    assert_eq!(first[0].decision, Decision::FileMissing);
    assert_eq!(first[1].decision, Decision::DirMissing);
    assert_eq!(first[2].decision, Decision::FileStale);

    // the destination after the copies, which carry the time they were made
    let after = vec![dir("d"), file("b.txt", 30), file("a.txt", 30)];
    let mut w = Walker::new();
    let root = w.next_dir().unwrap();
    let second = w.visit(&root, &src, &after);
    for s in &second {
        assert!(!s.decision.needs_copy());
        assert!(!s.decision.needs_dir());
    }
    assert_eq!(second[1].decision, Decision::DirExists);
}

#[test]
fn empty_source_level_has_no_steps() {
    let mut w = Walker::new();
    let root = w.next_dir().unwrap();
    let steps = w.visit(&root, &Vec::new(), &vec![file("keep", 1)]);
    assert!(steps.is_empty());
    assert_eq!(w.next_dir(), None);
}

#[test]
fn one_failed_copy_among_ten_is_reported() {
    let mut r = SyncReport::new();
    for i in 0..10 {
        if i == 4 {
            r.record_failure(String::from("copy f4: permission denied"));
        } else {
            r.record_copy();
        }
    }
    assert_eq!(r.copied, 9);
    assert_eq!(r.failure_count(), 1);
    assert!(!r.is_success());
    assert_eq!(r.exit_code(), 1);
    assert_eq!(r.failures[0], "copy f4: permission denied");
}

#[test]
fn clean_run_reports_success() {
    let mut r = SyncReport::new();
    r.record_copy();
    assert!(r.is_success());
    assert_eq!(r.exit_code(), 0);
    assert_eq!(r.copied, 1);
}

#[test]
fn merge_adds_counts_and_failures() {
    let mut a = SyncReport::new();
    a.record_copy();
    a.record_failure(String::from("one"));
    let mut b = SyncReport::new();
    b.record_copy();
    b.record_copy();
    b.record_failure(String::from("two"));
    a.merge(b);
    assert_eq!(a.copied, 3);
    assert_eq!(a.failures, vec![String::from("one"), String::from("two")]);
}

#[test]
fn copy_count_saturates() {
    let mut r = SyncReport::new();
    r.copied = u64::MAX;
    r.record_copy();
    assert_eq!(r.copied, u64::MAX);
    let mut other = SyncReport::new();
    other.copied = 2;
    r.merge(other);
    assert_eq!(r.copied, u64::MAX);
}

#[test]
fn parse_args_takes_two_roots() {
    let args = vec![String::from("sync"), String::from("/src"), String::from("/dst")];
    let a = parse_args(&args).unwrap();
    assert_eq!(a.src_path, "/src");
    assert_eq!(a.dest_path, "/dst");
}

#[test]
fn parse_args_ignores_extra_items() {
    let args = vec![
        String::from("sync"),
        String::from("s"),
        String::from("d"),
        String::from("x"),
    ];
    let a = parse_args(&args).unwrap();
    assert_eq!(a.src_path, "s");
    assert_eq!(a.dest_path, "d");
}

#[test]
fn parse_args_without_both_roots() {
    assert!(parse_args(&[String::from("sync"), String::from("s")]).is_none());
    assert!(parse_args(&[String::from("sync")]).is_none());
    assert!(parse_args(&[]).is_none());
}
