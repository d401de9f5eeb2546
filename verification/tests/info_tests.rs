use skywriter::digest::content_digest;
use skywriter::info::{FileInfo, FileInfoError, FileRecord, StripPrefixError};
use skywriter::walk::{DirEntry, PathProbe};

const TEST_DIR_PATH_STR: &str = "test_dir";
const TEST_FILE_PATH_STR: &str = "test_dir/test.txt";
const INNER_DIR_PATH_STR: &str = "test_dir/inner_dir";
const INNER_FILE_PATH_STR: &str = "test_dir/inner_dir/inner.txt";

const TEST_FILE_SECONDS: u64 = 1_600_000_000;
const INNER_FILE_SECONDS: u64 = 1_600_000_500;

fn test_file_record() -> FileRecord {
    FileRecord { seconds: TEST_FILE_SECONDS, content: b"test file content".to_vec() }
}

fn inner_file_record() -> FileRecord {
    FileRecord { seconds: INNER_FILE_SECONDS, content: b"inner file content".to_vec() }
}

fn test_dir_probe() -> PathProbe {
    PathProbe::Dir(vec![
        DirEntry {
            name: "inner_dir".to_string(),
            probe: PathProbe::Dir(vec![DirEntry {
                name: "inner.txt".to_string(),
                probe: PathProbe::File(inner_file_record()),
            }]),
        },
        DirEntry { name: "test.txt".to_string(), probe: PathProbe::File(test_file_record()) },
    ])
}

#[test]
fn get_test_file_info() {
    let probe = PathProbe::File(test_file_record());
    let test_file_info = FileInfo::from_file_path(TEST_FILE_PATH_STR.to_string(), &probe)
        .expect(format!("Error creating test file info from path at '{}'", TEST_FILE_PATH_STR).as_str());
    assert_eq!(test_file_info.get_path(), TEST_FILE_PATH_STR);
    assert_eq!(test_file_info.get_seconds(), TEST_FILE_SECONDS);
    assert_eq!(test_file_info.get_digest(), content_digest(b"test file content"));
}

#[test]
fn get_inner_file_info() {
    let probe = PathProbe::File(inner_file_record());
    let inner_file_info = FileInfo::from_file_path(INNER_FILE_PATH_STR.to_string(), &probe)
        .expect(format!("Error creating inner file info from path at '{}'", INNER_FILE_PATH_STR).as_str());
    assert_eq!(inner_file_info.get_path(), INNER_FILE_PATH_STR);
    assert_eq!(inner_file_info.get_seconds(), INNER_FILE_SECONDS);
    assert_eq!(inner_file_info.get_digest(), content_digest(b"inner file content"));
}

#[test]
fn get_test_dir_info() {
    let test_file_probe = PathProbe::File(test_file_record());
    let test_file_info = FileInfo::from_file_path(TEST_FILE_PATH_STR.to_string(), &test_file_probe)
        .expect(format!("Error creating test file info from path at '{}'", TEST_FILE_PATH_STR).as_str());

    let inner_file_probe = PathProbe::File(inner_file_record());
    let inner_file_info = FileInfo::from_file_path(INNER_FILE_PATH_STR.to_string(), &inner_file_probe)
        .expect(format!("Error creating inner file info from path at '{}'", INNER_FILE_PATH_STR).as_str());

    let test_dir_infos = FileInfo::from_dir_path(&TEST_DIR_PATH_STR.to_string(), &test_dir_probe())
        .expect(format!("Error creating test dir infos from path at '{}'", TEST_DIR_PATH_STR).as_str());

    assert_eq!(test_dir_infos.len(), 2);
    assert_eq!(test_dir_infos[0], inner_file_info);
    assert_eq!(test_dir_infos[1], test_file_info);
}

#[test]
fn get_inner_dir_info() {
    let inner_file_probe = PathProbe::File(inner_file_record());
    let inner_file_info = FileInfo::from_file_path(INNER_FILE_PATH_STR.to_string(), &inner_file_probe)
        .expect(format!("Error creating inner file info from path at '{}'", INNER_FILE_PATH_STR).as_str());

    let inner_dir_probe = PathProbe::Dir(vec![DirEntry {
        name: "inner.txt".to_string(),
        probe: PathProbe::File(inner_file_record()),
    }]);
    let test_dir_infos = FileInfo::from_dir_path(&INNER_DIR_PATH_STR.to_string(), &inner_dir_probe)
        .expect(format!("Error creating inner dir infos from path at '{}'", INNER_DIR_PATH_STR).as_str());

    assert_eq!(test_dir_infos.len(), 1);
    assert_eq!(test_dir_infos[0], inner_file_info);
}

#[test]
fn missing_path_reports_absent_fingerprint() {
    let info = FileInfo::from_file_path("ghost.txt".to_string(), &PathProbe::Missing)
        .expect("a missing path is not an error");
    assert_eq!(info.get_path(), "ghost.txt");
    assert_eq!(info.get_seconds(), 0);
    assert_eq!(info.get_digest(), "");
    assert!(!info.present());
}

#[test]
fn directory_probe_is_not_a_file() {
    let err = FileInfo::from_file_path("test_dir".to_string(), &test_dir_probe())
        .expect_err("a directory cannot be fingerprinted as a file");
    assert_eq!(err, FileInfoError::NotFile);
}

#[test]
fn file_probe_is_not_a_directory() {
    let probe = PathProbe::File(test_file_record());
    let err = FileInfo::from_dir_path(&"test_dir/test.txt".to_string(), &probe)
        .expect_err("a regular file cannot be walked as a directory");
    assert_eq!(err, FileInfoError::NotDir);
}

#[test]
fn missing_directory_means_nothing_to_sync() {
    let infos = FileInfo::from_dir_path(&"not_there".to_string(), &PathProbe::Missing)
        .expect("a missing directory is not an error");
    assert!(infos.is_empty());
}

#[test]
fn digest_matches_sha256_of_content() {
    let record = FileRecord { seconds: 7, content: b"abc".to_vec() };
    let probe = PathProbe::File(record);
    let info = FileInfo::from_file_path("abc.txt".to_string(), &probe).unwrap();
    assert_eq!(
        info.get_digest(),
        "BA7816BF8F01CFEA414140DE5DAE2223B00361A396177A9CB410FF61F20015AD"
    );
}

#[test]
fn digest_of_empty_content() {
    assert_eq!(
        content_digest(b""),
        "E3B0C44298FC1C149AFBF4C8996FB92427AE41E4649B934CA495991B7852B855"
    );
}

#[test]
fn strip_prefix_rebases_the_path() {
    let probe = PathProbe::File(test_file_record());
    let mut info = FileInfo::from_file_path(TEST_FILE_PATH_STR.to_string(), &probe).unwrap();
    info.strip_prefix("test_dir").expect("test_dir is a prefix");
    assert_eq!(info.get_path(), "test.txt");
    assert_eq!(info.get_seconds(), TEST_FILE_SECONDS);
    assert!(info.present());
}

#[test]
fn strip_prefix_of_whole_path_leaves_empty_identity() {
    let mut info = FileInfo::from_file_path("a/b".to_string(), &PathProbe::Missing).unwrap();
    info.strip_prefix("a/b").expect("the whole path is a prefix of itself");
    assert_eq!(info.get_path(), "");
}

#[test]
fn strip_prefix_rejects_unrelated_prefix() {
    let mut info = FileInfo::from_file_path("a/b.txt".to_string(), &PathProbe::Missing).unwrap();
    let err = info.strip_prefix("c").expect_err("c is no prefix of a/b.txt");
    assert_eq!(err, StripPrefixError::NotAPrefix);
    assert_eq!(info.get_path(), "a/b.txt");
}

#[test]
fn strip_prefix_needs_a_component_boundary() {
    let mut info = FileInfo::from_file_path("abc/d".to_string(), &PathProbe::Missing).unwrap();
    assert!(info.strip_prefix("ab").is_err());
    assert_eq!(info.get_path(), "abc/d");
}

#[test]
fn from_parts_round_trips_wire_data() {
    let info = FileInfo::from_parts("notes.txt".to_string(), 12, "AB".repeat(32), true)
        .expect("well-formed parts are accepted");
    assert_eq!(info.get_path(), "notes.txt");
    assert_eq!(info.get_seconds(), 12);
    assert!(info.present());
}

#[test]
fn from_parts_rejects_broken_absent_invariant() {
    assert!(FileInfo::from_parts("x".to_string(), 5, String::new(), false).is_none());
    assert!(FileInfo::from_parts("x".to_string(), 0, "AA".to_string(), false).is_none());
    assert!(FileInfo::from_parts("x".to_string(), 0, String::new(), false).is_some());
}
