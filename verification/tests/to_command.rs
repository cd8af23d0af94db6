use muxed::load::command::Commands;
use muxed::load::to_command::Plan;
use muxed::tmux::config::Config;
use muxed::tmux::pane::Pane;
use muxed::tmux::pre::Pre;
use muxed::tmux::session::Session;
use muxed::tmux::target::Target;
use muxed::tmux::window::Window;

fn basic_config() -> Config {
    Config { base_index: 0, pane_base_index: 0 }
}

fn window(name: &str, index: usize, panes: Vec<Pane>) -> Window {
    Window {
        name: name.into(),
        target: Some(Target::new("muxed", Some(index), None)),
        panes,
        ..Default::default()
    }
}

fn pane(command: Option<&str>, w: usize, p: usize) -> Pane {
    Pane {
        command: command.map(|c| c.to_string()),
        target: Some(Target::new("muxed", Some(w), Some(p))),
        ..Default::default()
    }
}

fn session(windows: Vec<Window>) -> Session {
    Session {
        name: Some("muxed".into()),
        target: Some(Target::new("muxed", None, None)),
        windows,
        config: Some(basic_config()),
        ..Default::default()
    }
}

#[test]
fn expect_1_session_plan() {
    let session = session(vec![window("cargo", 0, vec![]), window("vim", 1, vec![]), window("git", 2, vec![])]);
    let commands = session.command_plan().unwrap();
    let remains: Vec<_> = commands.iter().filter(|x| matches!(x, Commands::Session(_))).collect();
    assert_eq!(remains.len(), 1);
}

#[test]
fn expect_2_windows_from_session_plan() {
    let session = session(vec![window("cargo", 0, vec![]), window("vim", 1, vec![])]);
    let commands = session.command_plan().unwrap();
    let remains: Vec<_> = commands.iter().filter(|x| matches!(x, Commands::Window(_))).collect();
    assert_eq!(remains.len(), 1);
}

#[test]
fn expect_1_attach_command() {
    let session = session(vec![window("cargo", 0, vec![])]);
    let commands = session.command_plan().unwrap();
    let remains: Vec<_> = commands.iter().filter(|x| matches!(x, Commands::Attach(_))).collect();
    assert_eq!(remains.len(), 1);
}

#[test]
fn expect_1_split_window_command() {
    let session = session(vec![window("editor", 0, vec![pane(Some("vim"), 0, 0), pane(Some("guard"), 0, 1)])]);
    let commands = session.command_plan().unwrap();
    let remains: Vec<_> = commands.iter().filter(|x| matches!(x, Commands::Split(_))).collect();
    assert_eq!(remains.len(), 1);
}

#[test]
fn to_command_expect_no_send_keys_with_empty_panes_syscommands() {
    let session = session(vec![window("editor", 0, vec![pane(None, 0, 0)])]);
    let commands = session.command_plan().unwrap();
    let remains: Vec<_> = commands.iter().filter(|x| matches!(x, Commands::SendKeys(_))).collect();
    assert_eq!(remains.len(), 0);
}

#[test]
fn expect_1_layout_command() {
    let mut w = window("editor", 0, vec![pane(Some("vim"), 0, 0), pane(Some("guard"), 0, 1)]);
    w.layout = Some("main-vertical".into());
    let session = session(vec![w]);
    let commands = session.command_plan().unwrap();
    let remains: Vec<_> = commands.iter().filter(|x| matches!(x, Commands::Layout(_))).collect();
    assert_eq!(remains.len(), 1);
}

#[test]
fn expect_no_layout_for_window_without_layout() {
    let mut w = window("editor", 0, vec![pane(Some("vim"), 0, 0), pane(Some("guard"), 0, 1)]);
    w.layout = None;
    let session = session(vec![w]);
    let commands = session.command_plan().unwrap();
    let remains: Vec<_> = commands.iter().filter(|x| matches!(x, Commands::Layout(_))).collect();
    assert_eq!(remains.len(), 0);
}

fn args_of(commands: &[Commands]) -> Vec<Vec<String>> {
    commands.iter().map(|c| c.args()).collect()
}

#[test]
fn full_plan_of_two_windows() {
    let mut editor = window("editor", 0, vec![pane(Some("vim"), 0, 0), pane(None, 0, 1)]);
    editor.path = Some("/src".into());
    editor.layout = Some("main-vertical".into());
    let mut s = session(vec![editor, window("logs", 1, vec![])]);
    s.pre = Some(Pre(vec!["echo hi".to_string()]));
    s.root = Some("/src".into());
    let commands = s.command_plan().unwrap();
    let expected: Vec<Vec<&str>> = vec![
        vec![],
        vec!["new", "-d", "-s", "muxed", "-n", "editor", "-c", "/src"],
        vec!["send-keys", "-t", "muxed:0", "cd /src", "KPEnter"],
        vec!["split-window", "-t", "muxed:0", "-c", "/src"],
        vec!["select-layout", "-t", "muxed:0", "main-vertical"],
        vec!["send-keys", "-t", "muxed:0.0", "vim", "KPEnter"],
        vec!["new-window", "-t", "muxed:", "-n", "logs"],
        vec!["select-window", "-t", "muxed:0"],
        vec!["select-pane", "-t", "muxed:0.0"],
        vec!["attach", "-t", "muxed", "-c", "/src", ">/dev/null"],
    ];
    let got = args_of(&commands);
    assert_eq!(got.len(), expected.len());
    for (g, e) in got.iter().zip(expected.iter()) {
        assert_eq!(g, e);
    }
    assert!(matches!(commands[0], Commands::Pre(_)));
}

#[test]
fn first_active_window_takes_the_focus() {
    let mut a = window("a", 0, vec![]);
    let mut b = window("b", 1, vec![]);
    let mut c = window("c", 2, vec![]);
    a.active = false;
    b.active = true;
    c.active = true;
    let mut s = session(vec![a, b, c]);
    s.daemonize = Some(true);
    s.config = Some(Config { base_index: 0, pane_base_index: 4 });
    let commands = s.command_plan().unwrap();
    let n = commands.len();
    assert_eq!(commands[n - 2].args(), vec!["select-window", "-t", "muxed:1"]);
    assert_eq!(commands[n - 1].args(), vec!["select-pane", "-t", "muxed:1.4"]);
    assert!(!commands.iter().any(|c| matches!(c, Commands::Attach(_))));
}

#[test]
fn active_panes_are_selected_and_pre_window_runs_in_every_pane() {
    let mut p0 = pane(Some("top"), 0, 0);
    p0.active = true;
    let mut s = session(vec![window("w", 0, vec![p0, pane(None, 0, 1)])]);
    s.pre_window = Some(Pre(vec!["source env".to_string()]));
    let commands = s.command_plan().unwrap();
    let selects = commands.iter().filter(|c| matches!(c, Commands::SelectPane(_))).count();
    assert_eq!(selects, 2);
    let keys: Vec<Vec<String>> = commands.iter().filter(|c| matches!(c, Commands::SendKeys(_))).map(|c| c.args()).collect();
    assert_eq!(keys.len(), 4);
    assert_eq!(keys[0], vec!["send-keys", "-t", "muxed:0", "source env", "KPEnter"]);
    assert_eq!(keys[1], vec!["send-keys", "-t", "muxed:0.0", "source env", "KPEnter"]);
    assert_eq!(keys[2], vec!["send-keys", "-t", "muxed:0.0", "top", "KPEnter"]);
    assert_eq!(keys[3], vec!["send-keys", "-t", "muxed:0.1", "source env", "KPEnter"]);
}

#[test]
fn missing_name_or_targets_fail_the_plan() {
    let mut s = session(vec![window("a", 0, vec![])]);
    s.name = None;
    assert!(matches!(s.command_plan(), Err(muxed::load::error::InterpreterError::SessionNameRequired)));

    let mut w = window("a", 0, vec![]);
    w.target = None;
    let s = session(vec![w]);
    assert!(matches!(s.command_plan(), Err(muxed::load::error::InterpreterError::WindowTargetRequired)));

    let mut p = pane(None, 0, 0);
    p.target = None;
    let s = session(vec![window("a", 0, vec![p])]);
    assert!(matches!(s.command_plan(), Err(muxed::load::error::InterpreterError::PaneTargetRequired)));

    let mut s = session(vec![]);
    s.target = None;
    assert!(matches!(s.command_plan(), Err(muxed::load::error::InterpreterError::SessionTargetRequired)));
}

#[test]
fn an_active_window_targeting_a_pane_cannot_be_focused() {
    let mut w = window("a", 0, vec![]);
    w.active = true;
    w.target = Some(Target::new("muxed", Some(0), Some(1)));
    let s = session(vec![w]);
    assert!(matches!(
        s.command_plan(),
        Err(muxed::load::error::InterpreterError::Common(muxed::tmux::target::CommonError::Target))
    ));
}

#[test]
fn a_session_not_daemonized_is_attached_last() {
    let mut s = session(vec![window("cargo", 0, vec![])]);
    s.daemonize = Some(false);
    let commands = s.command_plan().unwrap();
    let attaches = commands.iter().filter(|c| matches!(c, Commands::Attach(_))).count();
    assert_eq!(attaches, 1);
    assert_eq!(commands.last().unwrap().args(), vec!["attach", "-t", "muxed", ">/dev/null"]);
}

#[test]
fn the_session_command_names_the_session() {
    let s = session(vec![window("cargo", 0, vec![])]);
    let commands = s.command_plan().unwrap();
    match &commands[0] {
        Commands::Session(c) => {
            assert_eq!(c.target.session, "muxed");
            assert_eq!(c.target.arg_string, "muxed");
            assert_eq!(c.window_name, "cargo");
        },
        _ => panic!("the plan opens with the session"),
    }
}
