use muxed::args::Args;
use muxed::load::command::Commands;
use muxed::load::project::exec;
use muxed::paths::homedir;
use muxed::tmux::pane::{PaneInner, PaneRepr};
use muxed::tmux::session::Session;
use muxed::tmux::window::{Inner, InnerOrString, Window, WindowRepr};
use std::path::PathBuf;

/// Loads a project whose configuration gives these fields, as a session that
/// is not yet running, and returns the commands that build it.
fn load(name: Option<&str>, root: Option<&str>, windows: Vec<WindowRepr>) -> Vec<Commands> {
    let session = Session {
        name: name.map(|n| n.to_string()),
        root: root.map(|r| r.to_string()),
        windows: windows.into_iter().map(|w| Window::from_repr(w).unwrap()).collect(),
        ..Default::default()
    };
    let args = Args { arg_project: "muxed-load-test".to_string(), ..Default::default() };
    exec(&args, session, false, false, String::new()).unwrap()
}

fn keyed(name: &str, inner: InnerOrString) -> WindowRepr {
    WindowRepr::Keyed(vec![(name.to_string(), inner)])
}

fn with_panes(layout: Option<&str>, panes: Vec<PaneRepr>) -> InnerOrString {
    InnerOrString::Inner(Inner {
        layout: layout.map(|l| l.to_string()),
        panes: Some(panes),
        active: None,
        path: None,
        command: None,
    })
}

fn cmd(s: &str) -> PaneRepr {
    PaneRepr::Str(s.to_string())
}

fn strs(names: &[&str]) -> Vec<WindowRepr> {
    names.iter().map(|n| WindowRepr::Str(n.to_string())).collect()
}

/// The windows the commands open, by name and number, in order.
fn opened_windows(cmds: &[Commands]) -> Vec<(String, Option<usize>)> {
    cmds.iter()
        .filter_map(|c| match c {
            Commands::Session(s) => Some((s.window_name.clone(), Some(0))),
            Commands::Window(w) => Some((w.name.clone(), w.target.window)),
            _ => None,
        })
        .collect()
}

/// How many panes the named window ends with: its first and one per split.
fn panes_of(cmds: &[Commands], name: &str) -> usize {
    let index = opened_windows(cmds).into_iter().find(|(n, _)| n == name).unwrap().1;
    1 + cmds.iter().filter(|c| matches!(c, Commands::Split(s) if s.target.window == index)).count()
}

/// The directory the session, and so its first window's first pane, opens in.
fn session_root(cmds: &[Commands]) -> Option<String> {
    cmds.iter()
        .find_map(|c| match c {
            Commands::Session(s) => Some(s.root_path.clone()),
            _ => None,
        })
        .unwrap()
}

/// The session the commands build, as the session command names it.
fn session_name(cmds: &[Commands]) -> String {
    cmds.iter()
        .find_map(|c| match c {
            Commands::Session(s) => Some(s.target.session.clone()),
            _ => None,
        })
        .unwrap()
}

#[test]
fn opens_3_windows_from_array() {
    let cmds = load(None, None, strs(&["ls", "vi", "git"]));
    assert_eq!(opened_windows(&cmds).len(), 3)
}

#[test]
fn opens_2_windows() {
    let cmds = load(None, None, vec![
        keyed("editor", with_panes(Some("main-vertical"), vec![cmd("ls"), cmd("vi")])),
        keyed("stuff", InnerOrString::Str(String::new())),
    ]);
    assert_eq!(opened_windows(&cmds).len(), 2)
}

#[test]
fn opens_3_windows_with_integer_names() {
    let cmds = load(None, None, vec![WindowRepr::Num(1), WindowRepr::Str("ls".to_string()), WindowRepr::Num(3)]);
    assert_eq!(opened_windows(&cmds).len(), 3)
}

#[test]
fn single_window_has_2_panes() {
    let cmds = load(None, None, vec![keyed("editor", with_panes(Some("main-vertical"), vec![cmd("ls"), cmd("vi")]))]);
    assert_eq!(panes_of(&cmds, "editor"), 2)
}

#[test]
fn multiple_windows_with_panes() {
    let cmds = load(None, None, vec![
        keyed("editor", with_panes(Some("main-vertical"), vec![cmd("ls"), cmd("vi")])),
        keyed("tests", with_panes(Some("main-vertical"), vec![cmd("ls"), cmd("vi"), cmd("ls")])),
    ]);
    assert_eq!(panes_of(&cmds, "editor"), 2);
    assert_eq!(panes_of(&cmds, "tests"), 3)
}

#[test]
fn window_with_empty_command_is_valid() {
    let empty = InnerOrString::Inner(Inner { layout: None, panes: None, active: None, path: None, command: None });
    let cmds = load(None, None, vec![keyed("editor", empty)]);
    assert_eq!(opened_windows(&cmds).len(), 1)
}

#[test]
fn panes_with_empty_commands_are_valid() {
    let blank = || PaneRepr::Fields(PaneInner { active: None, command: None, path: None });
    let cmds = load(None, None, vec![keyed("editor", with_panes(Some("main-vertical"), vec![blank(), blank()]))]);
    assert_eq!(panes_of(&cmds, "editor"), 2)
}

#[test]
fn expect_home_var_to_open_in_home_dir() {
    let cmds = load(None, Some("$HOME"), vec![keyed("editor", InnerOrString::Str(String::new()))]);
    assert_eq!(opened_windows(&cmds)[0].0, "editor");
    // The variable is handed on as written, for tmux to expand.
    assert_eq!(session_root(&cmds), Some("$HOME".to_string()));
}

#[test]
fn expect_tilde_slash_to_open_in_home_dir() {
    let cmds = load(None, Some("~/"), vec![keyed("editor", InnerOrString::Str(String::new()))]);
    assert_eq!(opened_windows(&cmds)[0].0, "editor");
    let root = session_root(&cmds).map(PathBuf::from);
    assert_eq!(root, homedir().map(PathBuf::from));
}

#[test]
fn expect_root_path_on_default_session_window_when_not_specified() {
    let cmds = load(None, Some("~/"), vec![keyed("editor", with_panes(None, vec![cmd("ls")]))]);
    assert_eq!(opened_windows(&cmds)[0].0, "editor");
    let root = session_root(&cmds).map(PathBuf::from);
    assert_eq!(homedir().map(PathBuf::from), root);
}

#[test]
fn expect_focus_on_the_first_window() {
    let cmds = load(None, None, strs(&["ssh", "git"]));
    let windows = opened_windows(&cmds);
    let selected: Vec<Option<usize>> = cmds
        .iter()
        .filter_map(|c| match c {
            Commands::SelectWindow(s) => Some(s.target.window),
            _ => None,
        })
        .collect();
    assert!(selected == vec![windows[0].1]);
    assert_eq!(selected.contains(&windows[1].1), false)
}

#[test]
fn expect_session_name_brians_session() {
    let cmds = load(Some("Brians Session"), None, strs(&["ssh", "git"]));
    assert_eq!(session_name(&cmds), "Brians Session")
}

#[test]
fn expect_attach_to_session_with_space_in_name() {
    let cmds = load(Some("name with spaces"), None, strs(&["ls"]));
    assert_eq!(session_name(&cmds), "name with spaces");
}

#[test]
fn a_session_loaded_in_the_foreground_attaches_by_its_name() {
    let session = Session {
        name: Some("name with spaces".to_string()),
        windows: vec![Window::from_repr(WindowRepr::Str("ls".to_string())).unwrap()],
        ..Default::default()
    };
    let args = Args { arg_project: "muxed-load-test".to_string(), flag_d: false, ..Default::default() };
    let cmds = exec(&args, session, false, false, String::new()).unwrap();
    match cmds.last().unwrap() {
        Commands::Attach(a) => assert_eq!(a.name.session, "name with spaces"),
        _ => panic!("the plan ends with the attach"),
    }
}
