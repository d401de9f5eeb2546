use skywriter::info::{FileInfoError, FileRecord};
use skywriter::paths::join_path;
use skywriter::walk::{walk_dir, DirEntry, PathProbe};

fn record(seconds: u64, content: &[u8]) -> FileRecord {
    FileRecord { seconds, content: content.to_vec() }
}

#[test]
fn walk_finds_files_at_their_relative_paths() {
    let root = PathProbe::Dir(vec![
        DirEntry { name: "a.txt".to_string(), probe: PathProbe::File(record(1, b"a")) },
        DirEntry {
            name: "sub".to_string(),
            probe: PathProbe::Dir(vec![DirEntry {
                name: "b.txt".to_string(),
                probe: PathProbe::File(record(2, b"b")),
            }]),
        },
    ]);
    let found = walk_dir(&root).expect("a directory can be walked");
    let mut paths: Vec<&str> = found.iter().map(|f| f.path.as_str()).collect();
    paths.sort();
    assert_eq!(paths, vec!["a.txt", "sub/b.txt"]);
}

#[test]
fn walk_order_is_irrelevant_to_the_file_set() {
    let root = PathProbe::Dir(vec![
        DirEntry {
            name: "sub".to_string(),
            probe: PathProbe::Dir(vec![DirEntry {
                name: "b.txt".to_string(),
                probe: PathProbe::File(record(2, b"b")),
            }]),
        },
        DirEntry { name: "a.txt".to_string(), probe: PathProbe::File(record(1, b"a")) },
    ]);
    let found = walk_dir(&root).expect("a directory can be walked");
    let mut paths: Vec<&str> = found.iter().map(|f| f.path.as_str()).collect();
    paths.sort();
    assert_eq!(paths, vec!["a.txt", "sub/b.txt"]);
}

#[test]
fn walk_skips_unreadable_entries() {
    let root = PathProbe::Dir(vec![
        DirEntry { name: "broken_link".to_string(), probe: PathProbe::Missing },
        DirEntry { name: "kept.txt".to_string(), probe: PathProbe::File(record(3, b"kept")) },
    ]);
    let found = walk_dir(&root).expect("a directory can be walked");
    assert_eq!(found.len(), 1);
    assert_eq!(found[0].path, "kept.txt");
    assert_eq!(found[0].record.seconds, 3);
    assert_eq!(found[0].record.content, b"kept".to_vec());
}

#[test]
fn walk_of_missing_root_is_not_found() {
    assert_eq!(walk_dir(&PathProbe::Missing).unwrap_err(), FileInfoError::NotFound);
}

#[test]
fn walk_of_regular_file_is_not_a_directory() {
    let probe = PathProbe::File(record(1, b"x"));
    assert_eq!(walk_dir(&probe).unwrap_err(), FileInfoError::NotDir);
}

#[test]
fn empty_directory_walks_to_nothing() {
    let found = walk_dir(&PathProbe::Dir(Vec::new())).expect("an empty directory walks fine");
    assert!(found.is_empty());
}

#[test]
fn join_path_inserts_one_separator() {
    assert_eq!(join_path("test_dir", "test.txt"), "test_dir/test.txt");
    assert_eq!(join_path("", "test.txt"), "test.txt");
    assert_eq!(join_path("a/b", "c"), "a/b/c");
}
