use file_explorer::fs_utils::build_listing;
use file_explorer::fs_utils::determine_file_type;
use file_explorer::fs_utils::FileNode;
use file_explorer::fs_utils::FsError;
use file_explorer::fs_utils::FsErrorKind;

fn node(path: &str, is_dir: bool) -> FileNode {
    FileNode::from_canonical_path(
        path.to_string(),
        is_dir,
        "0 B".to_string(),
        "-".to_string(),
        "-".to_string(),
        "-".to_string(),
    )
}

fn names(nodes: &[FileNode]) -> Vec<String> {
    nodes.iter().map(|n| n.file_name.clone()).collect()
}

#[test]
fn sort_dirs_first_then_case_insensitive() {
    let listing = build_listing(vec![
        Ok(node("/r/b.txt", false)),
        Ok(node("/r/A", true)),
        Ok(node("/r/a.txt", false)),
    ]);
    assert_eq!(names(&listing), vec!["A", "a.txt", "b.txt"]);
    assert!(listing[0].is_dir);
    assert!(!listing[1].is_dir);
}

#[test]
fn sort_mixed_case_within_groups() {
    let listing = build_listing(vec![
        Ok(node("/r/zeta", true)),
        Ok(node("/r/Alpha", true)),
        Ok(node("/r/beta.c", false)),
        Ok(node("/r/ALMOND.c", false)),
        Ok(node("/r/apple.c", false)),
    ]);
    assert_eq!(names(&listing), vec!["Alpha", "zeta", "ALMOND.c", "apple.c", "beta.c"]);
}

#[test]
fn permission_denied_entries_are_skipped() {
    let listing = build_listing(vec![
        Ok(node("/r/readable_one", false)),
        Err(FsError {
            kind: FsErrorKind::PermissionDenied,
            message: "permission denied".to_string(),
        }),
        Ok(node("/r/readable_two", false)),
    ]);
    assert_eq!(names(&listing), vec!["readable_one", "readable_two"]);
}

#[test]
fn other_failed_entries_are_skipped_too() {
    let listing = build_listing(vec![
        Err(FsError { kind: FsErrorKind::Other, message: "broken symlink".to_string() }),
        Ok(node("/r/kept", true)),
        Err(FsError { kind: FsErrorKind::NotFound, message: "gone".to_string() }),
    ]);
    assert_eq!(names(&listing), vec!["kept"]);
}

#[test]
fn sort_is_stable_for_order_equal_nodes() {
    // Two entries the order cannot tell apart (same name, same group) keep
    // the order they were read in; the distinct name still sorts between.
    let listing = build_listing(vec![
        Ok(node("/second/dup.txt", false)),
        Ok(node("/second/art.txt", false)),
        Ok(node("/first/dup.txt", false)),
    ]);
    assert_eq!(names(&listing), vec!["art.txt", "dup.txt", "dup.txt"]);
    assert_eq!(listing[1].absolute_path, "/second/dup.txt");
    assert_eq!(listing[2].absolute_path, "/first/dup.txt");
}

#[test]
fn empty_listing_stays_empty() {
    let listing = build_listing(Vec::new());
    assert!(listing.is_empty());
}

#[test]
fn display_name_marks_directories() {
    assert_eq!(node("/r/src", true).display_name(), "📂 src/");
    assert_eq!(node("/r/main.rs", false).display_name(), "📄 main.rs");
}

#[test]
fn file_type_from_extension() {
    assert_eq!(determine_file_type(&"/home/u/main.rs".to_string()), Some("rs".to_string()));
    assert_eq!(determine_file_type(&"/x/archive.tar.gz".to_string()), Some("gz".to_string()));
}

#[test]
fn file_type_none_for_dotfiles_and_plain_names() {
    assert_eq!(determine_file_type(&"/home/u/.gitignore".to_string()), None);
    assert_eq!(determine_file_type(&"/x/noext".to_string()), None);
    assert_eq!(determine_file_type(&"/a.b/c".to_string()), None);
}

#[test]
fn node_from_root_path_has_no_parent() {
    let root = node("/", true);
    assert_eq!(root.file_name, "/");
    assert_eq!(root.parent_folder, None);
    assert_eq!(root.absolute_path, "/");
}

#[test]
fn node_parent_and_name_come_from_the_path() {
    let top = node("/home", true);
    assert_eq!(top.file_name, "home");
    assert_eq!(top.parent_folder, Some("/".to_string()));

    let nested = node("/home/user/notes.txt", false);
    assert_eq!(nested.file_name, "notes.txt");
    assert_eq!(nested.parent_folder, Some("/home/user".to_string()));
    assert!(nested.matches_filters);
}
