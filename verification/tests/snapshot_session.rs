use muxed::load::enrichment::enrich_with_home;
use muxed::tmux::config::Config;
use muxed::snapshot::entity::{bool_from_int, Entity};
use muxed::snapshot::process::{ProcessInfo, ProcessTable};
use muxed::snapshot::session_data::{derive_root_path, derive_window_path};
use muxed::tmux::pane::Pane;
use muxed::tmux::session::Session;
use muxed::tmux::target::Target;
use muxed::tmux::window::Window;

fn no_processes() -> ProcessTable {
    ProcessTable { processes: vec![] }
}

fn win(index: usize, name: &str, active: bool, layout: &str) -> Entity {
    Entity::Window {
        session: "test-session".to_string(),
        index,
        name: name.to_string(),
        active,
        layout: layout.to_string(),
    }
}

fn pane(window_index: usize, index: usize, active: bool, path: &str, pid: usize) -> Entity {
    Entity::Pane {
        session: "test-session".to_string(),
        window_index,
        index,
        active,
        path: path.to_string(),
        pid,
    }
}

fn session_of(entities: Vec<Entity>, target: &Target) -> Session {
    Session::from_entities(&entities, &no_processes(), target.clone())
}

#[test]
fn test_tryfrom_entity_window_to_window_ok_and_err() {
    let ent = Entity::Window {
        session: "sess".to_string(),
        index: 1,
        name: "win".to_string(),
        active: true,
        layout: "main-vertical".to_string(),
    };
    let w = Window::from_entity(&ent);
    assert!(w.is_ok());

    let ent_pane = Entity::Pane {
        session: "sess".to_string(),
        window_index: 0,
        index: 2,
        active: false,
        path: "/tmp".to_string(),
        pid: 1,
    };
    let w2 = Window::from_entity(&ent_pane);
    assert!(w2.is_err());
    assert_eq!(w2.unwrap_err().message(), "Failed to create window from snapshot");
}

#[test]
fn test_tryfrom_entity_pane_to_pane_ok_and_err() {
    let ent = Entity::Pane {
        session: "sess".to_string(),
        window_index: 0,
        index: 2,
        active: false,
        path: "/tmp".to_string(),
        pid: 1,
    };
    let p = Pane::from_entity(&ent, &no_processes());
    assert!(p.is_ok());

    let ent_win = Entity::Window {
        session: "sess".to_string(),
        index: 1,
        name: "win".to_string(),
        active: true,
        layout: "main-vertical".to_string(),
    };
    let p2 = Pane::from_entity(&ent_win, &no_processes());
    assert!(p2.is_err());
}

#[test]
fn test_bool_from_int() {
    assert!(!bool_from_int(0));
    assert!(bool_from_int(1));
    assert!(bool_from_int(42));
}

#[test]
fn test_session_from_empty_output() {
    let target = Target::new("test-session", None, None);
    let session = session_of(vec![], &target);
    assert_eq!(session.name, Some("test-session".to_string()));
    assert_eq!(session.windows.len(), 0);
    assert_eq!(session.target, Some(target));
}

#[test]
fn test_session_from_single_window() {
    let target = Target::new("test-session", None, None);
    let session = session_of(vec![win(0, "main", true, "even-horizontal")], &target);
    assert_eq!(session.name, Some("test-session".to_string()));
    assert_eq!(session.windows.len(), 1);

    let window = &session.windows[0];
    assert_eq!(window.name, "main");
    assert!(window.active);
    assert_eq!(window.layout, Some("even-horizontal".to_string()));
    assert_eq!(window.panes.len(), 0);
}

#[test]
fn test_session_from_window_with_panes() {
    let target = Target::new("test-session", None, None);
    let session = session_of(
        vec![
            win(0, "main", true, "even-horizontal"),
            pane(0, 0, true, "/home/user", 12345),
            pane(0, 1, false, "/tmp", 12346),
        ],
        &target,
    );
    assert_eq!(session.windows.len(), 1);

    let window = &session.windows[0];
    assert_eq!(window.name, "main");
    assert_eq!(window.panes.len(), 2);

    let pane1 = &window.panes[0];
    assert!(pane1.active);
    assert_eq!(pane1.path, Some("/home/user".to_string()));

    let pane2 = &window.panes[1];
    assert!(!pane2.active);
    assert_eq!(pane2.path, Some("/tmp".to_string()));
}

#[test]
fn test_session_from_multiple_windows() {
    let target = Target::new("test-session", None, None);
    let session = session_of(
        vec![
            win(0, "main", true, "even-horizontal"),
            win(1, "editor", false, "main-vertical"),
            pane(0, 0, true, "/home/user", 12345),
            pane(1, 0, false, "/project", 12347),
        ],
        &target,
    );
    assert_eq!(session.windows.len(), 2);

    let window0 = &session.windows[0];
    assert_eq!(window0.name, "main");
    assert!(window0.active);
    assert_eq!(window0.panes.len(), 1);

    let window1 = &session.windows[1];
    assert_eq!(window1.name, "editor");
    assert!(!window1.active);
    assert_eq!(window1.layout, Some("main-vertical".to_string()));
    assert_eq!(window1.panes.len(), 1);
}

#[test]
fn test_session_from_pane_without_window() {
    let target = Target::new("test-session", None, None);
    let session = session_of(
        vec![win(0, "main", true, "even-horizontal"), pane(5, 0, true, "/home/user", 12345)],
        &target,
    );
    assert_eq!(session.windows.len(), 1);
    let window = &session.windows[0];
    assert_eq!(window.name, "main");
    assert_eq!(window.panes.len(), 0);
}

#[test]
fn test_session_target_preservation() {
    let target = Target::new("custom-session-name", Some(2), Some(1));
    let session = session_of(vec![win(0, "main", true, "even-horizontal")], &target);
    assert_eq!(session.name, Some("custom-session-name:2.1".to_string()));
    assert_eq!(session.target, Some(target));
}

#[test]
fn test_session_default_fields() {
    let target = Target::new("test-session", None, None);
    let session = session_of(vec![win(0, "main", true, "even-horizontal")], &target);
    assert!(session.pre.is_none());
    assert!(session.pre_window.is_none());
    assert_eq!(session.root, None);
    assert_eq!(session.daemonize, None);
    assert!(session.config.is_none());
}

#[test]
fn test_derives_root_from_common_pane_paths() {
    let target = Target::new("test-session", None, None);
    let session = session_of(
        vec![
            win(0, "main", true, "even-horizontal"),
            pane(0, 0, true, "/tmp", 12345),
            pane(0, 1, false, "/tmp", 12346),
            pane(0, 2, false, "/tmp", 12347),
        ],
        &target,
    );
    assert_eq!(session.root, Some("/tmp".to_string()));
    let window = &session.windows[0];
    assert_eq!(window.path, None);
    for pane in &window.panes {
        assert_eq!(pane.path, None);
    }
}

#[test]
fn test_derives_root_from_majority_pane_paths() {
    let target = Target::new("test-session", None, None);
    let session = session_of(
        vec![
            win(0, "main", true, "even-horizontal"),
            pane(0, 0, true, "/tmp", 12345),
            pane(0, 1, false, "/tmp", 12346),
            pane(0, 2, false, "/home", 12347),
        ],
        &target,
    );
    assert_eq!(session.root, Some("/tmp".to_string()));
    let window = &session.windows[0];
    assert_eq!(window.path, None);
    assert_eq!(window.panes[0].path, None);
    assert_eq!(window.panes[1].path, None);
    assert_eq!(window.panes[2].path, Some("/home".to_string()));
}

#[test]
fn test_no_root_when_all_paths_unique() {
    let target = Target::new("test-session", None, None);
    let session = session_of(
        vec![
            win(0, "main", true, "even-horizontal"),
            pane(0, 0, true, "/home/user", 12345),
            pane(0, 1, false, "/tmp", 12346),
            pane(0, 2, false, "/var", 12347),
        ],
        &target,
    );
    assert_eq!(session.root, None);
    let window = &session.windows[0];
    assert_eq!(window.path, None);
    assert_eq!(window.panes[0].path, Some("/home/user".to_string()));
    assert_eq!(window.panes[1].path, Some("/tmp".to_string()));
    assert_eq!(window.panes[2].path, Some("/var".to_string()));
}

#[test]
fn test_window_path_derived_from_pane_majority() {
    let target = Target::new("test-session", None, None);
    let session = session_of(
        vec![
            win(0, "work", true, "even-horizontal"),
            win(1, "misc", false, "even-horizontal"),
            pane(0, 0, true, "/project", 12345),
            pane(0, 1, false, "/project", 12346),
            pane(0, 2, false, "/tmp", 12347),
            pane(1, 0, false, "/home", 12348),
            pane(1, 1, false, "/var", 12349),
        ],
        &target,
    );
    assert_eq!(session.root, Some("/project".to_string()));
    let window0 = &session.windows[0];
    assert_eq!(window0.path, None);
    let window1 = &session.windows[1];
    assert_eq!(window1.path, None);
}

#[test]
fn windows_come_in_index_order_and_a_relisted_index_replaces() {
    let target = Target::new("s", None, None);
    let session = session_of(
        vec![
            win(3, "c", false, "l"),
            win(1, "a", false, "l"),
            pane(3, 0, false, "/x", 1),
            win(3, "c2", false, "l"),
            win(2, "b", false, "l"),
        ],
        &target,
    );
    let names: Vec<&str> = session.windows.iter().map(|w| w.name.as_str()).collect();
    assert_eq!(names, vec!["a", "b", "c2"]);
    assert_eq!(session.windows[2].panes.len(), 0);
    assert_eq!(session.windows[1].target.as_ref().unwrap().combined, "test-session:2");
}

#[test]
fn window_path_keeps_a_path_its_panes_do_not_share_with_the_root() {
    let target = Target::new("s", None, None);
    let session = session_of(
        vec![
            win(0, "a", false, "l"),
            win(1, "b", false, "l"),
            pane(0, 0, false, "/r", 1),
            pane(0, 1, false, "/r", 2),
            pane(0, 2, false, "/r", 3),
            pane(1, 0, false, "/w", 4),
            pane(1, 1, false, "/w", 5),
            pane(1, 2, false, "/v", 6),
        ],
        &target,
    );
    assert_eq!(session.root, Some("/r".to_string()));
    assert_eq!(session.windows[0].path, None);
    assert_eq!(session.windows[1].path, Some("/w".to_string()));
    assert_eq!(session.windows[1].panes[0].path, None);
    assert_eq!(session.windows[1].panes[2].path, Some("/v".to_string()));
}

#[test]
fn majority_and_root_paths() {
    let p = |path: Option<&str>| Pane { path: path.map(|s| s.to_string()), ..Default::default() };
    assert_eq!(derive_window_path(&vec![]), None);
    assert_eq!(derive_window_path(&vec![p(Some("/a")), p(None)]), None);
    assert_eq!(derive_window_path(&vec![p(Some("/a")), p(Some("/a")), p(None)]), Some("/a".to_string()));
    let w = |panes: Vec<Pane>| Window { panes, ..Default::default() };
    assert_eq!(derive_root_path(&vec![w(vec![p(Some("/a"))]), w(vec![p(Some("/b"))])]), None);
    assert_eq!(
        derive_root_path(&vec![w(vec![p(Some("/a")), p(Some("/b"))]), w(vec![p(Some("/b")), p(Some("/a")), p(Some("/b"))])]),
        Some("/b".to_string())
    );
}

#[test]
fn panes_run_the_newest_descendant_of_their_shell() {
    let procs = ProcessTable {
        processes: vec![
            ProcessInfo { pid: 10, parent: None, start_time: 1, cmd: vec!["bash".to_string()] },
            ProcessInfo { pid: 11, parent: Some(10), start_time: 2, cmd: vec!["vim".to_string(), "a.rs".to_string()] },
            ProcessInfo { pid: 12, parent: Some(10), start_time: 5, cmd: vec!["cargo".to_string(), "watch".to_string()] },
            ProcessInfo { pid: 13, parent: Some(12), start_time: 6, cmd: vec!["rustc".to_string()] },
            ProcessInfo { pid: 20, parent: None, start_time: 1, cmd: vec!["zsh".to_string()] },
        ],
    };
    assert_eq!(procs.foreground_command(10), Some("rustc".to_string()));
    assert_eq!(procs.foreground_command(12), Some("rustc".to_string()));
    assert_eq!(procs.foreground_command(20), None);
    assert_eq!(procs.foreground_command(99), None);
    let ent = pane(0, 0, true, "/x", 10);
    let p = Pane::from_entity(&ent, &procs).unwrap();
    assert_eq!(p.command, Some("rustc".to_string()));
    assert_eq!(p.target.unwrap().combined, "test-session:0.0");
}

#[test]
fn entity_index() {
    assert_eq!(win(7, "w", true, "l").index(), 7);
    assert_eq!(pane(3, 2, false, "/tmp", 1).index(), 2);
}

#[test]
fn loading_a_snapshot_gives_windows_their_paths_back() {
    let target = Target::new("s", None, None);
    let mut session = session_of(
        vec![
            win(0, "a", false, "l"),
            win(1, "b", false, "l"),
            pane(0, 0, false, "/r", 1),
            pane(0, 1, false, "/r", 2),
            pane(0, 2, false, "/r", 3),
            pane(1, 0, false, "/w", 4),
            pane(1, 1, false, "/w", 5),
            pane(1, 2, false, "/v", 6),
        ],
        &target,
    );
    enrich_with_home(&mut session, "s", false, Config::default(), &None);
    assert_eq!(session.windows[0].path, Some("/r".to_string()));
    assert_eq!(session.windows[1].path, Some("/w".to_string()));
    assert_eq!(session.windows[1].panes[2].path, Some("/v".to_string()));
    assert_eq!(session.windows[0].panes[1].path, Some("/r".to_string()));
    // A pane that shared its window's own path comes back with the root.
    assert_eq!(session.windows[1].panes[0].path, Some("/r".to_string()));
}
