use skywriter::info::{FileInfo, FileRecord};
use skywriter::reconcile::{decide, reconcile_dir, SyncAction};
use skywriter::walk::PathProbe;

fn info_from(path: &str, seconds: u64, content: &[u8]) -> FileInfo {
    let probe = PathProbe::File(FileRecord { seconds, content: content.to_vec() });
    FileInfo::from_file_path(path.to_string(), &probe).unwrap()
}

fn absent(path: &str) -> FileInfo {
    FileInfo::from_file_path(path.to_string(), &PathProbe::Missing).unwrap()
}

#[test]
fn decide_is_deterministic() {
    let local = info_from("notes.txt", 10, b"v1");
    let remote = info_from("notes.txt", 20, b"v2");
    let first = decide(&local, &remote);
    let second = decide(&local, &remote);
    assert_eq!(first, second);
}

#[test]
fn both_absent_is_no_op() {
    assert_eq!(decide(&absent("ghost.txt"), &absent("ghost.txt")), SyncAction::NoOp);
}

#[test]
fn only_local_is_pushed() {
    let local = info_from("only_here.txt", 5, b"content");
    assert_eq!(decide(&local, &absent("only_here.txt")), SyncAction::Push);
}

#[test]
fn only_remote_is_pulled() {
    let remote = info_from("only_there.txt", 5, b"content");
    assert_eq!(decide(&absent("only_there.txt"), &remote), SyncAction::Pull);
}

#[test]
fn equal_digests_are_no_op_whatever_the_timestamps() {
    let local = info_from("same.txt", 100, b"same bytes");
    let remote = info_from("same.txt", 999, b"same bytes");
    assert_eq!(decide(&local, &remote), SyncAction::NoOp);
    assert_eq!(decide(&remote, &local), SyncAction::NoOp);
}

#[test]
fn strictly_newer_remote_wins() {
    let local = info_from("notes.txt", 10, b"v1");
    let remote = info_from("notes.txt", 20, b"v2");
    assert_eq!(decide(&local, &remote), SyncAction::Pull);
}

#[test]
fn newer_local_wins() {
    let local = info_from("notes.txt", 30, b"v3");
    let remote = info_from("notes.txt", 20, b"v2");
    assert_eq!(decide(&local, &remote), SyncAction::Push);
}

#[test]
fn timestamp_tie_with_differing_content_goes_to_local() {
    let local = info_from("tied.txt", 50, b"local version");
    let remote = info_from("tied.txt", 50, b"remote version");
    assert_eq!(decide(&local, &remote), SyncAction::Push);
}

#[test]
fn union_pass_plans_every_identity_once() {
    let local = vec![
        info_from("both.txt", 10, b"old"),
        info_from("local_only.txt", 5, b"mine"),
    ];
    let remote = vec![
        info_from("both.txt", 20, b"new"),
        info_from("remote_only.txt", 7, b"theirs"),
    ];
    let plan = reconcile_dir(&local, &remote);
    assert_eq!(plan.len(), 3);
    assert_eq!(plan[0].path, "both.txt");
    assert_eq!(plan[0].action, SyncAction::Pull);
    assert_eq!(plan[1].path, "local_only.txt");
    assert_eq!(plan[1].action, SyncAction::Push);
    assert_eq!(plan[2].path, "remote_only.txt");
    assert_eq!(plan[2].action, SyncAction::Pull);
}

#[test]
fn union_pass_of_identical_sets_is_all_no_op() {
    let local = vec![info_from("a.txt", 1, b"a"), info_from("b.txt", 2, b"b")];
    let remote = vec![info_from("b.txt", 9, b"b"), info_from("a.txt", 8, b"a")];
    let plan = reconcile_dir(&local, &remote);
    assert_eq!(plan.len(), 2);
    for step in &plan {
        assert_eq!(step.action, SyncAction::NoOp);
    }
}

#[test]
fn union_pass_of_empty_sets_is_empty() {
    let plan = reconcile_dir(&Vec::new(), &Vec::new());
    assert!(plan.is_empty());
}
