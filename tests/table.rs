use pty_tabs::error::TabError;
use pty_tabs::table::TabTable;

#[test]
fn ids_are_increasing_and_never_reused() {
    let mut t: TabTable<u32> = TabTable::new();
    let a = t.add_tab(10);
    let b = t.add_tab(11);
    assert_eq!((a, b), (0, 1));
    assert!(t.remove_tab(b).is_ok());
    let c = t.add_tab(12);
    assert_eq!(c, 2);
    assert!(t.remove_tab(a).is_ok());
    assert!(t.remove_tab(c).is_ok());
    let d = t.add_tab(13);
    assert_eq!(d, 3);
    assert_eq!(t.tab_ids(), vec![3]);
    assert_eq!(t.next_tab_id(), 4);
}

#[test]
fn remove_returns_the_session_of_that_tab() {
    let mut t: TabTable<&str> = TabTable::new();
    let a = t.add_tab("first");
    let b = t.add_tab("second");
    let c = t.add_tab("third");
    assert_eq!(t.remove_tab(b), Ok("second"));
    assert_eq!(t.tab_ids(), vec![a, c]);
    assert_eq!(t.remove_tab(c), Ok("third"));
    assert_eq!(t.remove_tab(a), Ok("first"));
    assert_eq!(t.tab_count(), 0);
}

#[test]
fn removing_unknown_tab_fails_and_changes_nothing() {
    let mut t: TabTable<u32> = TabTable::new();
    let a = t.add_tab(1);
    t.add_tab(2);
    t.set_active(a).unwrap();
    assert_eq!(t.remove_tab(99), Err(TabError::UnknownTab));
    assert_eq!(t.tab_count(), 2);
    assert_eq!(t.tab_ids(), vec![0, 1]);
    assert_eq!(t.active_tab(), Some(a));
    assert_eq!(t.next_tab_id(), 2);
}

#[test]
fn removed_tab_is_unknown_afterwards() {
    let mut t: TabTable<u32> = TabTable::new();
    let a = t.add_tab(1);
    t.add_tab(2);
    assert!(t.remove_tab(a).is_ok());
    assert_eq!(t.resolve(Some(a)), Err(TabError::UnknownTab));
    assert_eq!(t.remove_tab(a), Err(TabError::UnknownTab));
    assert_eq!(t.set_active(a), Err(TabError::UnknownTab));
    assert!(matches!(t.session_mut(Some(a)), Err(TabError::UnknownTab)));
    t.add_tab(3);
    assert_eq!(t.resolve(Some(a)), Err(TabError::UnknownTab));
}

#[test]
fn removing_active_tab_clears_selection() {
    let mut t: TabTable<u32> = TabTable::new();
    let a = t.add_tab(1);
    let b = t.add_tab(2);
    t.set_active(a).unwrap();
    assert_eq!(t.resolve(None), Ok(a));
    assert!(t.remove_tab(a).is_ok());
    assert_eq!(t.active_tab(), None);
    assert_eq!(t.resolve(None), Err(TabError::NoActiveTab));
    t.add_tab(3);
    assert_eq!(t.resolve(None), Err(TabError::NoActiveTab));
    t.set_active(b).unwrap();
    assert_eq!(t.resolve(None), Ok(b));
}

#[test]
fn removing_other_tab_keeps_selection() {
    let mut t: TabTable<u32> = TabTable::new();
    let a = t.add_tab(1);
    let b = t.add_tab(2);
    t.set_active(b).unwrap();
    assert!(t.remove_tab(a).is_ok());
    assert_eq!(t.active_tab(), Some(b));
}

#[test]
fn no_active_tab_on_a_new_table() {
    let mut t: TabTable<u32> = TabTable::new();
    assert_eq!(t.resolve(None), Err(TabError::NoActiveTab));
    t.add_tab(5);
    assert_eq!(t.resolve(None), Err(TabError::NoActiveTab));
    assert_eq!(t.resolve(Some(0)), Ok(0));
}

#[test]
fn session_mut_reaches_the_addressed_tab() {
    let mut t: TabTable<u32> = TabTable::new();
    let a = t.add_tab(1);
    let b = t.add_tab(2);
    *t.session_mut(Some(b)).unwrap() = 20;
    t.set_active(a).unwrap();
    *t.session_mut(None).unwrap() = 10;
    assert_eq!(t.session(Some(a)), Ok(&10));
    assert_eq!(t.session(Some(b)), Ok(&20));
}
