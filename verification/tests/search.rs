use file_explorer::app::Action;
use file_explorer::app::Effect;
use file_explorer::app::FileExplorerApp;
use file_explorer::debounce::Debouncer;
use file_explorer::fs_utils::FileNode;
use file_explorer::fs_utils::FsError;

fn node(path: &str, is_dir: bool) -> FileNode {
    FileNode::from_canonical_path(
        path.to_string(),
        is_dir,
        "0 B".to_string(),
        "-".to_string(),
        "-".to_string(),
        "-".to_string(),
    )
}

fn sample_state() -> FileExplorerApp {
    let entries: Vec<Result<FileNode, FsError>> = vec![
        Ok(node("/p/README.md", false)),
        Ok(node("/p/other.txt", false)),
        Ok(node("/p/rEADME.txt", false)),
    ];
    FileExplorerApp::new(node("/p", true), entries)
}

fn flags(state: &FileExplorerApp) -> Vec<(String, bool)> {
    state.files.iter().map(|n| (n.file_name.clone(), n.matches_filters)).collect()
}

#[test]
fn empty_filter_matches_everything() {
    let mut state = sample_state();
    state.post_update(Action::ApplyFilter("readme".to_string()));
    assert!(state.files.iter().any(|n| !n.matches_filters));

    state.post_update(Action::ApplyFilter("".to_string()));
    assert!(state.files.iter().all(|n| n.matches_filters));
}

#[test]
fn filter_is_case_insensitive() {
    let mut state = sample_state();
    let eff = state.post_update(Action::ApplyFilter("readme".to_string()));
    assert!(eff.is_none());
    let got = flags(&state);
    assert_eq!(got[0], ("other.txt".to_string(), false));
    assert_eq!(got[1], ("README.md".to_string(), true));
    assert_eq!(got[2], ("rEADME.txt".to_string(), true));
}

#[test]
fn filter_trims_and_lowercases_the_query() {
    let mut state = sample_state();
    state.post_update(Action::ApplyFilter("  ReadMe ".to_string()));
    let got = flags(&state);
    assert_eq!(got[0], ("other.txt".to_string(), false));
    assert_eq!(got[1], ("README.md".to_string(), true));
    assert_eq!(got[2], ("rEADME.txt".to_string(), true));
}

#[test]
fn search_stores_the_text_and_schedules_a_filter() {
    let mut state = sample_state();
    let eff = state.post_update(Action::SearchByFilename("doc".to_string()));
    assert_eq!(state.filters.file_name_search, "doc");
    match eff {
        Some(Effect::ScheduleFilter(token)) => assert_eq!(token, 1),
        other => panic!("expected a timer request, got {:?}", other),
    }
    assert!(state.files.iter().all(|n| n.matches_filters));
}

#[test]
fn two_searches_in_one_window_filter_once_with_the_second_text() {
    let mut state = sample_state();
    let first = state.post_update(Action::SearchByFilename("other".to_string()));
    let second = state.post_update(Action::SearchByFilename("readme".to_string()));
    let tok1 = match first {
        Some(Effect::ScheduleFilter(t)) => t,
        other => panic!("expected a timer request, got {:?}", other),
    };
    let tok2 = match second {
        Some(Effect::ScheduleFilter(t)) => t,
        other => panic!("expected a timer request, got {:?}", other),
    };
    assert_ne!(tok1, tok2);

    // The superseded timer elapses first: nothing happens.
    state.debounce_fire(tok1);
    assert!(state.files.iter().all(|n| n.matches_filters));

    // The current timer elapses: the second text is applied.
    state.debounce_fire(tok2);
    let got = flags(&state);
    assert_eq!(got[0], ("other.txt".to_string(), false));
    assert_eq!(got[1], ("README.md".to_string(), true));
    assert_eq!(got[2], ("rEADME.txt".to_string(), true));

    // The text fired once; the same token releases nothing further.
    state.post_update(Action::ApplyFilter("".to_string()));
    state.debounce_fire(tok2);
    assert!(state.files.iter().all(|n| n.matches_filters));
}

#[test]
fn debouncer_releases_only_the_current_token() {
    let mut d = Debouncer::new();
    let t1 = d.schedule("one".to_string());
    let t2 = d.schedule("two".to_string());
    assert_eq!(d.fire(t1), None);
    assert_eq!(d.fire(t2), Some("two".to_string()));
    assert_eq!(d.fire(t2), None);
}

#[test]
fn filtering_keeps_every_node_and_its_order() {
    let mut state = sample_state();
    let before: Vec<String> = state.files.iter().map(|n| n.file_name.clone()).collect();
    state.post_update(Action::ApplyFilter("never-matches-anything".to_string()));
    let after: Vec<String> = state.files.iter().map(|n| n.file_name.clone()).collect();
    assert_eq!(before, after);
    assert!(state.files.iter().all(|n| !n.matches_filters));
}
