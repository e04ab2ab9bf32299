use file_explorer::app::Action;
use file_explorer::app::FileExplorerApp;
use file_explorer::fs_utils::FileNode;
use file_explorer::fs_utils::FsError;
use file_explorer::fs_utils::FsErrorKind;
use file_explorer::text::split_lines;

fn node(path: &str, is_dir: bool) -> FileNode {
    FileNode::from_canonical_path(
        path.to_string(),
        is_dir,
        "0 B".to_string(),
        "-".to_string(),
        "-".to_string(),
        "-".to_string(),
    )
}

fn sample_state() -> FileExplorerApp {
    let entries: Vec<Result<FileNode, FsError>> = vec![
        Ok(node("/home/user/readme.md", false)),
        Ok(node("/home/user/todo.txt", false)),
    ];
    FileExplorerApp::new(node("/home/user", true), entries)
}

#[test]
fn lines_split_at_newlines_and_drop_carriage_returns() {
    assert_eq!(split_lines("a\r\nb\nlast"), vec!["a", "b", "last"]);
}

#[test]
fn trailing_newline_ends_the_last_line() {
    assert_eq!(split_lines("x\n"), vec!["x"]);
}

#[test]
fn empty_text_has_no_lines() {
    assert_eq!(split_lines(""), Vec::<String>::new());
}

#[test]
fn lone_newline_is_one_empty_line() {
    assert_eq!(split_lines("\n"), vec![""]);
}

#[test]
fn opening_a_file_caches_content_lines_and_type() {
    let mut state = sample_state();
    state.open_file(node("/home/user/readme.md", false), Ok("# Title\nbody\n".to_string()));
    assert_eq!(
        state.opened_file.as_ref().map(|f| f.file_name.clone()),
        Some("readme.md".to_string())
    );
    assert_eq!(state.opened_file_contents, Ok("# Title\nbody\n".to_string()));
    assert_eq!(state.opened_file_lines, Ok(vec!["# Title".to_string(), "body".to_string()]));
    assert_eq!(state.opened_file_type, Some("md".to_string()));
}

#[test]
fn failed_read_stores_the_error_and_keeps_the_node() {
    let mut state = sample_state();
    let missing = node("/home/user/gone.txt", false);
    state.open_file(
        missing,
        Err(FsError { kind: FsErrorKind::NotFound, message: "no such file".to_string() }),
    );
    assert_eq!(
        state.opened_file.as_ref().map(|f| f.absolute_path.clone()),
        Some("/home/user/gone.txt".to_string())
    );
    match &state.opened_file_contents {
        Err(e) => {
            assert_eq!(e.kind, FsErrorKind::NotFound);
            assert_eq!(e.message, "no such file");
        }
        Ok(_) => panic!("the failed read must store its error"),
    }
    assert!(state.opened_file_lines.is_err());
    assert_eq!(state.opened_file_type, None);
}

#[test]
fn reopening_the_open_file_is_a_no_op() {
    let mut state = sample_state();
    state.open_file(node("/home/user/readme.md", false), Ok("original".to_string()));

    let eff = state.post_update(Action::OpenFile(0));
    assert!(eff.is_none());
    assert_eq!(state.opened_file_contents, Ok("original".to_string()));
    assert_eq!(state.opened_file_lines, Ok(vec!["original".to_string()]));
    assert_eq!(state.opened_file_type, Some("md".to_string()));
}

#[test]
fn close_file_clears_the_viewer() {
    let mut state = sample_state();
    state.open_file(node("/home/user/todo.txt", false), Ok("one\ntwo".to_string()));

    let eff = state.post_update(Action::CloseFile);
    assert!(eff.is_none());
    assert!(state.opened_file.is_none());
    assert_eq!(state.opened_file_contents, Ok(String::new()));
    assert_eq!(state.opened_file_lines, Ok(Vec::new()));
    assert_eq!(state.opened_file_type, None);
}

#[test]
fn file_without_extension_has_no_type() {
    let mut state = sample_state();
    state.open_file(node("/home/user/Makefile", false), Ok("all:\n".to_string()));
    assert_eq!(state.opened_file_type, None);
}
