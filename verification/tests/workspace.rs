use isanagent::workspace::{
    check_directory, check_file, check_rename_source, check_rename_target, check_write_target,
    disk_error, file_content, file_path, list_path, path_error, rename_paths, shown_path,
    workspace_entries, write_path, DiskStep, FoundEntry, PathFailure, PathState,
    WORKSPACE_FILE_MAX_BYTES, WORKSPACE_LIST_MAX_ENTRIES,
};

fn found(name: &str, state: PathState) -> FoundEntry {
    FoundEntry {
        name: name.to_string(),
        state,
    }
}

#[test]
fn directories_come_first_and_case_does_not_count() {
    let entries = workspace_entries(&vec![
        found("b.txt", PathState::File(3)),
        found("Zoo", PathState::Directory),
        found("A.txt", PathState::File(5)),
        found("socket", PathState::Other),
        found("art", PathState::Directory),
        found("broken", PathState::Unreadable("x".to_string())),
    ]);
    let names: Vec<&str> = entries.iter().map(|e| e.name.as_str()).collect();
    assert_eq!(names, vec!["art", "Zoo", "A.txt", "b.txt"]);
    assert_eq!(entries[0].kind(), "dir");
    assert_eq!(entries[0].size, None);
    assert_eq!(entries[2].kind(), "file");
    assert_eq!(entries[2].size, Some(5));
}

#[test]
fn entries_that_differ_in_case_only_keep_their_order() {
    let entries = workspace_entries(&vec![
        found("README", PathState::File(1)),
        found("readme", PathState::File(2)),
        found("ReadMe", PathState::File(3)),
    ]);
    let sizes: Vec<Option<u64>> = entries.iter().map(|e| e.size).collect();
    assert_eq!(sizes, vec![Some(1), Some(2), Some(3)]);
}

#[test]
fn letters_of_other_scripts_are_compared_in_lower_case() {
    let entries = workspace_entries(&vec![
        found("Ä", PathState::File(1)),
        found("z", PathState::File(2)),
        found("ä", PathState::File(3)),
    ]);
    let sizes: Vec<Option<u64>> = entries.iter().map(|e| e.size).collect();
    assert_eq!(sizes, vec![Some(2), Some(1), Some(3)]);
}

#[test]
fn a_listing_ends_after_a_thousand_entries() {
    let all: Vec<FoundEntry> = (0..WORKSPACE_LIST_MAX_ENTRIES + 5)
        .map(|i| found(&format!("{:05}", i), PathState::File(i as u64)))
        .collect();
    assert_eq!(workspace_entries(&all).len(), WORKSPACE_LIST_MAX_ENTRIES);
}

#[test]
fn only_directories_are_listed() {
    assert_eq!(list_path("  "), ".");
    assert_eq!(list_path(" a/b "), "a/b");
    assert_eq!(shown_path("  "), "");
    assert!(check_directory(&PathState::Directory).is_ok());
    let e = check_directory(&PathState::Missing("x".to_string())).unwrap_err();
    assert_eq!((e.status, e.code.as_str()), (404, "path_not_found"));
    let e = check_directory(&PathState::File(1)).unwrap_err();
    assert_eq!((e.status, e.code.as_str()), (400, "not_a_directory"));
    let e = check_directory(&PathState::Unreadable("x".to_string())).unwrap_err();
    assert_eq!((e.status, e.code.as_str()), (500, "metadata_failed"));
}

#[test]
fn paths_and_the_disk_can_fail() {
    let e = path_error(&PathFailure::Refused("outside".to_string()));
    assert_eq!((e.status, e.code.as_str()), (400, "invalid_path"));
    let e = path_error(&PathFailure::Broken("join".to_string()));
    assert_eq!((e.status, e.code.as_str()), (500, "path_resolution_failed"));
    let codes: Vec<String> = [
        DiskStep::Metadata,
        DiskStep::ReadDir,
        DiskStep::Read,
        DiskStep::CreateDir,
        DiskStep::Write,
        DiskStep::Rename,
    ]
    .iter()
    .map(|s| disk_error(*s, "x").code)
    .collect();
    assert_eq!(
        codes,
        vec![
            "metadata_failed",
            "read_dir_failed",
            "read_failed",
            "create_dir_failed",
            "write_failed",
            "rename_failed"
        ]
    );
}

#[test]
fn files_are_read() {
    assert_eq!(file_path(" a ").unwrap(), "a");
    assert_eq!(
        file_path(" ").unwrap_err().message,
        "Query parameter `path` is required"
    );
    assert!(check_file(&PathState::File(WORKSPACE_FILE_MAX_BYTES as u64)).is_ok());
    let e = check_file(&PathState::File(2_000_001)).unwrap_err();
    assert_eq!(e.status, 413);
    assert_eq!(e.message, "File is 2000001 bytes (max 2000000).");
    assert_eq!(check_file(&PathState::Directory).unwrap_err().code, "not_a_file");
    let e = check_file(&PathState::Missing("no such file".to_string())).unwrap_err();
    assert_eq!((e.code.as_str(), e.message.as_str()), ("metadata_failed", "no such file"));
    assert_eq!(file_content("é".as_bytes().to_vec()).unwrap(), "é");
    assert_eq!(file_content(vec![0xff, 0xfe]).unwrap_err().code, "not_utf8");
}

#[test]
fn files_are_written() {
    assert_eq!(write_path(" a ", "x").unwrap(), "a");
    assert_eq!(
        write_path("", "x").unwrap_err().message,
        "Field `path` is required"
    );
    let e = write_path("a", &"é".repeat(1_000_001)).unwrap_err();
    assert_eq!((e.status, e.code.as_str()), (413, "content_too_large"));
    assert_eq!(e.message, "Content is 2000002 bytes (max 2000000).");
    assert!(check_write_target(&PathState::Missing("x".to_string())).is_ok());
    assert!(check_write_target(&PathState::File(1)).is_ok());
    assert_eq!(
        check_write_target(&PathState::Directory).unwrap_err().code,
        "is_directory"
    );
}

#[test]
fn files_are_renamed() {
    let (from, to) = rename_paths(" a ", " b ").unwrap();
    assert_eq!((from.as_str(), to.as_str()), ("a", "b"));
    assert_eq!(rename_paths("a", " ").unwrap_err().code, "missing_path");
    assert!(check_rename_source("/w/a", "/w", true).is_ok());
    assert_eq!(
        check_rename_source("/w", "/w", true).unwrap_err().code,
        "invalid_operation"
    );
    assert_eq!(check_rename_source("/w/a", "/w", false).unwrap_err().status, 404);
    assert!(check_rename_target("/w/a", "/w/b", false).is_ok());
    assert_eq!(
        check_rename_target("/w/a", "/w/a", true).unwrap_err().code,
        "same_path"
    );
    assert_eq!(check_rename_target("/w/a", "/w/b", true).unwrap_err().status, 409);
}
