use monitor_write::matcher::{
    changed_path, is_relevant_path, match_event, scan_batch, UnexpectedWatch,
};
use monitor_write::paths::parent_paths_from_child;
use monitor_write::protocol::RawEvent;
use monitor_write::watch_set::WatchSet;

const TARGET: &str = "/srv/app/conf/token";

fn watches() -> WatchSet {
    let mut set = WatchSet::new();
    set.insert(1, TARGET.to_string());
    for (i, dir) in parent_paths_from_child(TARGET).into_iter().enumerate() {
        set.insert(2 + i as u64, dir);
    }
    set
}

fn named(handle: u64, name: &str) -> RawEvent {
    RawEvent { handle, name: Some(name.to_string()) }
}

fn unnamed(handle: u64) -> RawEvent {
    RawEvent { handle, name: None }
}

#[test]
fn named_event_is_about_the_entry_of_the_watched_directory() {
    assert_eq!(changed_path("/srv/app", &Some("conf".to_string())), "/srv/app/conf");
    assert_eq!(changed_path("/", &Some("srv".to_string())), "/srv");
}

#[test]
fn unnamed_event_is_about_the_watched_path_itself() {
    assert_eq!(changed_path("/srv/app", &None), "/srv/app");
}

#[test]
fn target_and_directories_above_it_are_relevant() {
    let ancestors = parent_paths_from_child(TARGET);
    assert!(is_relevant_path(TARGET, TARGET, &ancestors));
    assert!(is_relevant_path("/srv/app/conf", TARGET, &ancestors));
    assert!(is_relevant_path("/srv/app", TARGET, &ancestors));
    assert!(is_relevant_path("/srv", TARGET, &ancestors));
    assert!(is_relevant_path("/", TARGET, &ancestors));
}

#[test]
fn siblings_are_not_relevant() {
    let ancestors = parent_paths_from_child(TARGET);
    assert!(!is_relevant_path("/srv/app/conf/other", TARGET, &ancestors));
    assert!(!is_relevant_path("/srv/app/logs", TARGET, &ancestors));
    assert!(!is_relevant_path("/srv/app/conf/token/x", TARGET, &ancestors));
    assert!(!is_relevant_path("/tmp", TARGET, &ancestors));
}

#[test]
fn paths_are_compared_by_their_components() {
    let target = "/srv/app//conf/token/";
    let ancestors = parent_paths_from_child(target);
    assert!(is_relevant_path("/srv/app/conf/token", target, &ancestors));
    assert!(is_relevant_path("/srv/app/conf", target, &ancestors));
    assert!(!is_relevant_path("/srv/app/conf/tok", target, &ancestors));
}

#[test]
fn event_on_the_target_watch_is_relevant() {
    let ancestors = parent_paths_from_child(TARGET);
    assert_eq!(match_event(&unnamed(1), &watches(), TARGET, &ancestors), Ok(true));
}

#[test]
fn target_moved_out_of_its_directory_is_relevant() {
    let ancestors = parent_paths_from_child(TARGET);
    assert_eq!(match_event(&named(2, "token"), &watches(), TARGET, &ancestors), Ok(true));
}

#[test]
fn parent_directory_moved_away_is_relevant() {
    let ancestors = parent_paths_from_child(TARGET);
    assert_eq!(match_event(&named(3, "conf"), &watches(), TARGET, &ancestors), Ok(true));
    assert_eq!(match_event(&named(5, "srv"), &watches(), TARGET, &ancestors), Ok(true));
}

#[test]
fn sibling_moved_away_is_not_relevant() {
    let ancestors = parent_paths_from_child(TARGET);
    assert_eq!(match_event(&named(2, "other"), &watches(), TARGET, &ancestors), Ok(false));
    assert_eq!(match_event(&named(3, "logs"), &watches(), TARGET, &ancestors), Ok(false));
    assert_eq!(match_event(&named(1, "child"), &watches(), TARGET, &ancestors), Ok(false));
}

#[test]
fn unknown_handle_is_an_error() {
    let ancestors = parent_paths_from_child(TARGET);
    assert_eq!(
        match_event(&unnamed(99), &watches(), TARGET, &ancestors),
        Err(UnexpectedWatch { handle: 99 })
    );
    assert_eq!(
        match_event(&named(0, "token"), &watches(), TARGET, &ancestors),
        Err(UnexpectedWatch { handle: 0 })
    );
    assert_eq!(
        match_event(&unnamed(1), &WatchSet::new(), TARGET, &ancestors),
        Err(UnexpectedWatch { handle: 1 })
    );
}

#[test]
fn empty_batch_is_irrelevant() {
    let ancestors = parent_paths_from_child(TARGET);
    assert_eq!(scan_batch(&vec![], &watches(), TARGET, &ancestors), Ok(false));
}

#[test]
fn batch_of_sibling_events_is_irrelevant() {
    let ancestors = parent_paths_from_child(TARGET);
    let batch = vec![named(2, "a"), named(3, "b"), named(4, "c")];
    assert_eq!(scan_batch(&batch, &watches(), TARGET, &ancestors), Ok(false));
}

#[test]
fn first_relevant_event_decides_the_batch() {
    let ancestors = parent_paths_from_child(TARGET);
    let batch = vec![named(2, "other"), unnamed(1), unnamed(99)];
    assert_eq!(scan_batch(&batch, &watches(), TARGET, &ancestors), Ok(true));
}

#[test]
fn unknown_handle_before_a_relevant_event_fails_the_batch() {
    let ancestors = parent_paths_from_child(TARGET);
    let batch = vec![named(2, "other"), unnamed(99), unnamed(1)];
    assert_eq!(
        scan_batch(&batch, &watches(), TARGET, &ancestors),
        Err(UnexpectedWatch { handle: 99 })
    );
}
