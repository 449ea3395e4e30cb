use monitor_write::protocol::Interest;
use monitor_write::watch_set::WatchSet;

#[test]
fn new_set_is_empty() {
    let set = WatchSet::new();
    assert_eq!(set.len(), 0);
    assert_eq!(set.last_handle(), None);
    assert_eq!(set.get(1), None);
}

#[test]
fn handle_leads_to_its_path() {
    let mut set = WatchSet::new();
    set.insert(1, "/a/b".to_string());
    set.insert(2, "/a".to_string());
    assert_eq!(set.len(), 2);
    assert_eq!(set.get(1), Some(&"/a/b".to_string()));
    assert_eq!(set.get(2), Some(&"/a".to_string()));
    assert_eq!(set.get(3), None);
}

#[test]
fn repeated_handle_takes_the_later_path_and_stays_single() {
    let mut set = WatchSet::new();
    set.insert(7, "/a/b".to_string());
    set.insert(8, "/a".to_string());
    set.insert(7, "/".to_string());
    assert_eq!(set.len(), 2);
    assert_eq!(set.get(7), Some(&"/".to_string()));
    assert_eq!(set.get(8), Some(&"/a".to_string()));
    assert_eq!(set.last_handle(), Some(8));
}

#[test]
fn watches_leave_last_registered_first() {
    let mut set = WatchSet::new();
    set.insert(1, "/a/b".to_string());
    set.insert(2, "/a".to_string());
    set.insert(3, "/".to_string());
    assert_eq!(set.last_handle(), Some(3));
    set.drop_last();
    assert_eq!(set.last_handle(), Some(2));
    assert_eq!(set.get(3), None);
    set.drop_last();
    set.drop_last();
    assert_eq!(set.len(), 0);
    set.drop_last();
    assert_eq!(set.len(), 0);
}

#[test]
fn target_and_ancestor_interests_are_as_stated() {
    let target = Interest::target();
    assert!(target.entry_created && target.write_completed && target.modified);
    assert!(target.self_moved && target.self_deleted);
    assert!(!target.child_moved_away);
    let ancestor = Interest::ancestor();
    assert!(ancestor.child_moved_away);
    assert!(!ancestor.entry_created && !ancestor.write_completed && !ancestor.modified);
    assert!(!ancestor.self_moved && !ancestor.self_deleted);
}
