use tinymist::error::Error;
use tinymist::overlay::ChangeSet;
use tinymist::path::{is_absolute_path, path_in_root};
use tinymist::session::{CompileNode, CompilerEntry, EntryChange};
use tinymist::text::{ContentChange, PositionEncoding};
use tinymist::workspace::{
    Activity, QueryKind, QueryMethod, QueryRoute, SessionId, CompileCluster,
};

fn s(x: &str) -> String {
    x.to_string()
}

fn session(entry: Option<&str>) -> CompileNode {
    CompileNode::new(s("primary"), entry.map(s), ChangeSet::empty())
}

#[test]
fn absolute_paths_and_roots() {
    assert!(is_absolute_path(&s("/w/a.typ")));
    assert!(!is_absolute_path(&s("a.typ")));
    assert!(!is_absolute_path(&s("")));
    assert!(path_in_root(&s("/w/a.typ"), &s("/w")));
    assert!(path_in_root(&s("/w/a.typ"), &s("/w/")));
    assert!(path_in_root(&s("/w"), &s("/w")));
    assert!(!path_in_root(&s("/wx/a.typ"), &s("/w")));
    assert!(!path_in_root(&s("/v/a.typ"), &s("/w")));
}

#[test]
fn relative_entry_is_rejected() {
    let mut se = session(Some("/w/a.typ"));
    let r = se.begin_change_entry(s("b.typ"));
    assert!(matches!(r, Err(Error::InvalidEntry)));
    assert_eq!(se.entry(), &Some(s("/w/a.typ")));
}

#[test]
fn same_entry_is_a_no_op() {
    let mut se = session(Some("/w/a.typ"));
    let c = se.begin_change_entry(s("/w/a.typ")).unwrap();
    assert!(matches!(c, EntryChange::Unchanged));
    assert_eq!(se.finish_change_entry(c, true), Ok(false));
}

#[test]
fn successful_switch_queues_an_empty_change_set() {
    let mut se = session(None);
    se.take_memory_changes();
    let c = se.begin_change_entry(s("/w/b.typ")).unwrap();
    assert_eq!(se.entry(), &Some(s("/w/b.typ")));
    assert_eq!(se.finish_change_entry(c, true), Ok(true));
    let pending = se.take_memory_changes();
    assert_eq!(pending.len(), 1);
    assert!(pending[0].changes.is_empty());
}

#[test]
fn failed_steal_rolls_back() {
    let mut se = session(Some("/w/a.typ"));
    let c = se.begin_change_entry(s("/w/b.typ")).unwrap();
    assert_eq!(se.finish_change_entry(c, false), Err(Error::ChannelClosed));
    assert_eq!(se.entry(), &Some(s("/w/a.typ")));
}

#[test]
fn later_switch_wins_over_rollback() {
    let mut se = session(Some("/w/a.typ"));
    let first = se.begin_change_entry(s("/w/b.typ")).unwrap();
    let second = se.begin_change_entry(s("/w/c.typ")).unwrap();
    assert_eq!(se.finish_change_entry(second, true), Ok(true));
    assert_eq!(se.finish_change_entry(first, false), Err(Error::ChannelClosed));
    assert_eq!(se.entry(), &Some(s("/w/c.typ")));
}

#[test]
fn compiler_side_of_a_switch() {
    let mut c = CompilerEntry::new(s("/w"));
    assert_eq!(c.entry_file, "/w/detached.typ");
    assert!(c.switch_to(&s("/w/a.typ")));
    assert_eq!(c.entry_file, "/w/a.typ");
    // Outside the root: the compiler keeps its entry.
    assert!(!c.switch_to(&s("/elsewhere/b.typ")));
    assert_eq!(c.entry_file, "/w/a.typ");
    assert_eq!(c.diagnostics_event(vec![1, 2]), Some(vec![1, 2]));
    c.disable();
    assert_eq!(c.entry_file, "/w/detached.typ");
    assert_eq!(c.diagnostics_event(vec![1, 2]), None);
}

fn chars(x: &str) -> Vec<char> {
    x.chars().collect()
}

#[test]
fn edits_reach_every_session_in_order() {
    let mut w = CompileCluster::new(s("/w"), None);
    w.pin_main(Some(s("/w/main.typ"))).unwrap();
    w.take_memory_changes(SessionId::Primary);
    w.take_memory_changes(SessionId::Main);
    w.create_source(s("/w/a.typ"), chars("a"));
    let e1 = vec![ContentChange { range: None, text: chars("b") }];
    let e2 = vec![ContentChange { range: None, text: chars("c") }];
    w.edit_source(&s("/w/a.typ"), &e1, PositionEncoding::Utf16).unwrap();
    w.edit_source(&s("/w/a.typ"), &e2, PositionEncoding::Utf16).unwrap();
    for id in [SessionId::Primary, SessionId::Main] {
        let pending = w.take_memory_changes(id);
        let texts: Vec<String> = pending
            .iter()
            .map(|cs| cs.changes[0].content.as_ref().unwrap().iter().collect())
            .collect();
        assert_eq!(texts, vec![s("a"), s("b"), s("c")]);
        let times: Vec<u64> = pending.iter().map(|cs| cs.changes[0].mtime).collect();
        assert_eq!(times, vec![1, 2, 3]);
    }
}

#[test]
fn edit_of_unknown_file_fails() {
    let mut w = CompileCluster::new(s("/w"), None);
    let e = vec![ContentChange { range: None, text: chars("b") }];
    assert_eq!(w.edit_source(&s("/w/x.typ"), &e, PositionEncoding::Utf16), Err(Error::FileMissing));
    assert!(w.take_memory_changes(SessionId::Primary).len() == 1);
}

#[test]
fn tasks_receive_changes_until_removed() {
    let mut w = CompileCluster::new(s("/w"), None);
    w.create_source(s("/w/a.typ"), chars("a"));
    w.add_task(s("task1"), Some(s("/w/a.typ")));
    w.remove_source(s("/w/a.typ"));
    assert!(w.remove_task(&s("task1")));
    assert!(!w.remove_task(&s("task1")));
}

#[test]
fn pin_creates_then_retargets_main() {
    let mut w = CompileCluster::new(s("/w"), None);
    let plan = w.pin_main(Some(s("/w/a.typ"))).unwrap();
    assert!(plan.created_main);
    assert!(plan.requests.is_empty());
    assert_eq!(w.main().as_ref().unwrap().entry(), &Some(s("/w/a.typ")));
    let plan = w.pin_main(Some(s("/w/b.typ"))).unwrap();
    assert!(!plan.created_main);
    assert_eq!(plan.requests.len(), 1);
    assert_eq!(plan.requests[0].session, SessionId::Main);
    assert_eq!(plan.requests[0].entry, Some(s("/w/b.typ")));
    assert!(matches!(w.pin_main(Some(s("rel.typ"))), Err(Error::InvalidEntry)));
}

#[test]
fn unpin_disables_main_and_falls_back() {
    let mut w = CompileCluster::new(s("/w"), None);
    w.pin_main(Some(s("/w/a.typ"))).unwrap();
    // Focus while pinned is only remembered.
    assert!(w.implicit_focus_entry(Some(s("/w/f.typ")), Activity::Hover).is_none());
    let plan = w.pin_main(None).unwrap();
    assert_eq!(plan.requests.len(), 2);
    assert_eq!(plan.requests[0].session, SessionId::Main);
    assert_eq!(plan.requests[0].entry, None);
    assert_eq!(plan.requests[1].session, SessionId::Primary);
    assert_eq!(plan.requests[1].entry, Some(s("/w/f.typ")));
    assert!(w.main().is_some());
}

#[test]
fn focus_follows_activity() {
    let mut w = CompileCluster::new(s("/w"), None);
    let r = w.implicit_focus_entry(Some(s("/w/a.typ")), Activity::Open).unwrap();
    assert_eq!(r.session, SessionId::Primary);
    assert_eq!(r.entry, Some(s("/w/a.typ")));
    assert!(w.implicit_focus_entry(Some(s("/w/b.typ")), Activity::FoldingRange).is_some());
    // After activity, opening no longer moves the focus.
    assert!(w.implicit_focus_entry(Some(s("/w/c.typ")), Activity::Open).is_none());
    // After a manual focus, activity does not either.
    assert!(w.focus_document(Some(s("/w/d.typ"))).is_some());
    assert!(w.implicit_focus_entry(Some(s("/w/e.typ")), Activity::Hover).is_none());
}

#[test]
fn configured_entry_holds_focus() {
    let mut w = CompileCluster::new(s("/w"), Some(s("/w/main.typ")));
    assert_eq!(w.primary().entry(), &Some(s("/w/main.typ")));
    assert!(w.focus_entry(Some(s("/w/a.typ"))).is_none());
    match w.query(QueryKind::State, &s("/w/a.typ")) {
        QueryRoute::Session { session, refocus } => {
            // Focus is held, but a query still moves the entry to its file.
            assert_eq!(session, SessionId::Primary);
            assert_eq!(refocus.unwrap().entry, Some(s("/w/a.typ")));
        }
        _ => panic!("expected a session route"),
    }
}

#[test]
fn queries_are_routed_by_kind() {
    let mut w = CompileCluster::new(s("/w"), None);
    assert_eq!(QueryMethod::FoldingRange.kind(), QueryKind::SourceOnly);
    assert_eq!(QueryMethod::Hover.kind(), QueryKind::State);
    assert_eq!(QueryMethod::InlayHint.kind(), QueryKind::World);
    assert_eq!(QueryMethod::OnSaveExport.kind(), QueryKind::Command);
    assert!(matches!(w.query(QueryKind::SourceOnly, &s("/w/a.typ")), QueryRoute::Overlay));
    assert!(matches!(w.query(QueryKind::Command, &s("/w/a.typ")), QueryRoute::Command));
    match w.query(QueryKind::World, &s("/w/a.typ")) {
        QueryRoute::Session { session, refocus } => {
            assert_eq!(session, SessionId::Primary);
            assert_eq!(refocus.unwrap().entry, Some(s("/w/a.typ")));
        }
        _ => panic!("expected a session route"),
    }
    w.pin_main(Some(s("/w/p.typ"))).unwrap();
    match w.query(QueryKind::State, &s("/w/a.typ")) {
        QueryRoute::Session { session, refocus } => {
            assert_eq!(session, SessionId::Main);
            assert!(refocus.is_none());
        }
        _ => panic!("expected a session route"),
    }
    assert_eq!(w.source(&s("/w/a.typ")).err(), Some(Error::FileMissing));
}

#[test]
fn entry_outside_root_is_a_soft_failure() {
    // The controller keeps the new entry while the compiler stays where it
    // was: the steal itself succeeded.
    let mut se = session(Some("/w/a.typ"));
    let mut compiler = CompilerEntry::new(s("/w"));
    assert!(compiler.switch_to(&s("/w/a.typ")));
    let c = se.begin_change_entry(s("/other/b.typ")).unwrap();
    let switched = compiler.switch_to(&s("/other/b.typ"));
    assert!(!switched);
    assert_eq!(se.finish_change_entry(c, true), Ok(true));
    assert_eq!(se.entry(), &Some(s("/other/b.typ")));
    assert_eq!(compiler.entry_file, "/w/a.typ");
}

#[test]
fn main_session_is_missing_until_pinned() {
    let mut w = CompileCluster::new(s("/w"), None);
    assert!(matches!(
        w.begin_change_entry(SessionId::Main, s("/w/a.typ")),
        Err(Error::ChannelClosed)
    ));
    assert_eq!(
        w.finish_change_entry(SessionId::Main, EntryChange::Unchanged, true),
        Err(Error::ChannelClosed)
    );
    assert!(w.take_memory_changes(SessionId::Main).is_empty());
    let r = w.activate_doc(None);
    assert_eq!(r.session, SessionId::Primary);
    assert_eq!(r.entry, None);
    assert!(w.update_entry(&s("/w/a.typ")).is_some());
}

#[test]
fn queries_go_to_main_after_unpin() {
    let mut w = CompileCluster::new(s("/w"), None);
    w.pin_main(Some(s("/w/p.typ"))).unwrap();
    w.pin_main(None).unwrap();
    match w.query(QueryKind::State, &s("/w/a.typ")) {
        QueryRoute::Session { session, refocus } => {
            assert_eq!(session, SessionId::Main);
            assert!(refocus.is_none());
        }
        _ => panic!("expected a session route"),
    }
}

#[test]
fn disabling_points_at_the_empty_document() {
    let mut w = CompileCluster::new(s("/w/"), Some(s("/w/main.typ")));
    w.take_memory_changes(SessionId::Primary);
    assert_eq!(w.disable(SessionId::Primary), Ok(()));
    assert_eq!(w.primary().entry(), &Some(s("/w/detached.typ")));
    let pending = w.take_memory_changes(SessionId::Primary);
    assert_eq!(pending.len(), 1);
    assert_eq!(pending[0].changes.len(), 1);
    assert_eq!(pending[0].changes[0].path, "/w/detached.typ");
    assert_eq!(pending[0].changes[0].mtime, 1);
    assert_eq!(pending[0].changes[0].content, Some(vec![]));
    assert_eq!(w.disable(SessionId::Main), Err(Error::ChannelClosed));
}

#[test]
fn task_sessions_hand_over_their_changes() {
    let mut w = CompileCluster::new(s("/w"), None);
    w.add_task(s("task1"), Some(s("/w/a.typ")));
    w.create_source(s("/w/a.typ"), chars("a"));
    let pending = w.take_task_memory_changes(&s("task1"));
    assert_eq!(pending.len(), 2);
    assert!(pending[0].changes.is_empty());
    assert_eq!(pending[1].changes[0].path, "/w/a.typ");
    assert!(w.take_task_memory_changes(&s("task1")).is_empty());
    assert!(w.take_task_memory_changes(&s("task2")).is_empty());
}
