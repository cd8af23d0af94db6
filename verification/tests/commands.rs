use muxed::args::Args;
use muxed::autocomplete::{needs_source_line, shell_name, shell_of_name, source_line, Shell};
use muxed::edit::{edit_command, EditError};
use muxed::list::{list_output, list_projects, sort_strings, str_lt};
use muxed::load::command::{shell_line, Commands, Layout, Split};
use muxed::tmux::target::{CommonError, Target};
use muxed::load::error::{InterpreterError, ParseError};
use muxed::load::project::{exec, fits_indices, open, plan, session_exists, Project};
use muxed::tmux::config::Config;
use muxed::tmux::pane::Pane;
use muxed::tmux::session::Session;
use muxed::tmux::window::Window;

#[test]
fn open_returns_attach_in_bare_context() {
    let attach_command = match open("muxed", false) {
        Commands::Attach(_) => true,
        _ => false,
    };
    assert!(attach_command);
}

#[test]
fn open_returns_switch_client_inside_tmux() {
    let c = open("muxed", true);
    assert!(matches!(c, Commands::SwitchClient(_)));
    assert_eq!(c.args(), vec!["switch-client", "-t", "muxed"]);
    assert_eq!(open("muxed", false).args(), vec!["attach", "-t", "muxed", ">/dev/null"]);
}

#[test]
fn a_running_session_is_opened_not_built() {
    assert!(session_exists("p", false, false).is_none());
    assert!(matches!(session_exists("p", true, false), Some(Commands::Attach(_))));
    let args = Args { arg_project: "proj".to_string(), ..Default::default() };
    let session = Session { windows: vec![Window { name: "w".to_string(), ..Default::default() }], ..Default::default() };
    let cmds = exec(&args, session, true, true, String::new()).unwrap();
    assert_eq!(cmds.len(), 1);
    assert_eq!(cmds[0].args(), vec!["switch-client", "-t", "proj"]);
}

#[test]
fn loading_names_numbers_and_plans_the_session() {
    let args = Args { arg_project: "proj".to_string(), flag_d: false, ..Default::default() };
    let session = Session {
        name: Some("named".to_string()),
        windows: vec![
            Window { name: "a".to_string(), panes: vec![Pane::default(), Pane::default()], ..Default::default() },
            Window { name: "b".to_string(), ..Default::default() },
        ],
        ..Default::default()
    };
    let options = "base-index 1\npane-base-index 2\n".to_string();
    let cmds = exec(&args, session, false, false, options).unwrap();
    let all: Vec<Vec<String>> = cmds.iter().map(|c| c.args()).collect();
    assert_eq!(all[0], vec!["new", "-d", "-s", "named", "-n", "a"]);
    assert_eq!(all[1], vec!["split-window", "-t", "named:1"]);
    assert_eq!(all[2], vec!["new-window", "-t", "named:", "-n", "b"]);
    assert_eq!(all[3], vec!["select-window", "-t", "named:1"]);
    assert_eq!(all[4], vec!["select-pane", "-t", "named:1.2"]);
    assert_eq!(all[5], vec!["attach", "-t", "named", ">/dev/null"]);
    assert_eq!(all.len(), 6);
}

#[test]
fn a_project_is_named_by_its_session_or_its_file() {
    let p = Project::new("file", Session::default());
    assert_eq!(p.name(), "file");
    let p = Project::new("file", Session { name: Some("own".to_string()), ..Default::default() });
    assert_eq!(p.name(), "own");
    assert!(matches!(plan(&p), Err(InterpreterError::SessionTargetRequired)));
    assert!(fits_indices(p.session(), Config { base_index: usize::MAX, pane_base_index: 0 }));
    let s = Session { windows: vec![Window::default(), Window::default()], ..Default::default() };
    assert!(!fits_indices(&s, Config { base_index: usize::MAX, pane_base_index: 0 }));
}

#[test]
fn tmux_options_set_the_numbering() {
    let c = Config::from_string("status on\nbase-index 1\n  pane-base-index   3 \nbase-index 4\n".to_string());
    assert_eq!(c, Config { base_index: 4, pane_base_index: 3 });
    let c = Config::from_string("base-index x\npane-base-index\n".to_string());
    assert_eq!(c, Config { base_index: 0, pane_base_index: 0 });
    assert_eq!(Config::from_string(String::new()), Config::default());
}

#[test]
fn projects_are_listed_sorted_without_the_template() {
    let entries: Vec<String> = vec!["b.yml", ".template.yml", "a.yml", "notes.txt", ".hidden", "c.yml.bak", "z.yml"]
        .into_iter()
        .map(|s| s.to_string())
        .collect();
    let projects = list_projects("/p", &entries, "/p/.template.yml");
    assert_eq!(projects, vec!["a", "b", "z"]);
    assert_eq!(list_output(&projects, false, true), "a\t\tb\t\tz");
    assert_eq!(list_output(&projects, true, true), "a\nb\nz");
    assert_eq!(list_output(&projects, false, false), "a\nb\nz");
    assert_eq!(list_output(&vec![], false, true), "");
}

#[test]
fn sorting_orders_by_characters() {
    let v: Vec<String> = vec!["b", "ab", "a", "", "B", "ab"].into_iter().map(|s| s.to_string()).collect();
    assert_eq!(sort_strings(&v), vec!["", "B", "a", "ab", "ab", "b"]);
    assert!(str_lt("a", "ab"));
    assert!(!str_lt("ab", "ab"));
    assert!(str_lt("Z", "a"));
}

#[test]
fn the_editor_opens_the_project_file() {
    assert_eq!(edit_command("/home/u/.muxed/p.yml").ok().unwrap(), "$EDITOR /home/u/.muxed/p.yml");
    assert!(matches!(edit_command("bad\0path"), Err(EditError::SysCall)));
    assert_eq!(EditError::SysCall.message(), "Couldn't create the editor open command");
}

#[test]
fn shells_and_their_completion_setup() {
    assert_eq!(shell_name("/usr/bin/zsh"), "zsh");
    assert_eq!(shell_name("bash"), "bash");
    assert_eq!(shell_name("/bin/"), "");
    assert_eq!(shell_of_name("fish"), Some(Shell::Fish));
    assert_eq!(shell_of_name("bash"), Some(Shell::Bash));
    assert_eq!(shell_of_name("tcsh"), None);
    let line = source_line("/h/.bash_completion.d/muxed");
    assert_eq!(line, "source /h/.bash_completion.d/muxed\n");
    assert!(needs_source_line("export A=1\n", &line));
    assert!(!needs_source_line("x\nsource /h/.bash_completion.d/muxed\n", &line));
}

#[test]
fn parse_error_messages() {
    assert_eq!(ParseError::NoWindows.message(), "No Windows have been defined");
    assert_eq!(ParseError::ExpandPath.message(), "Path could not be expanded");
}

#[test]
fn attach_runs_through_a_shell_line() {
    let args: Vec<String> = open("my s", false).args();
    assert_eq!(shell_line(&args), "tmux attach -t my s >/dev/null");
    assert_eq!(shell_line(&vec![]), "tmux");
}

#[test]
fn commands_come_from_each_command() {
    let c: Commands = Split::new(Target::new("s", Some(1), None), Some("/p".to_string())).into();
    assert_eq!(c.args(), vec!["split-window", "-t", "s:1", "-c", "/p"]);
    let c = Commands::from(Layout::new(Target::new("s", Some(1), None), "tiled".to_string()));
    assert_eq!(c.args(), vec!["select-layout", "-t", "s:1", "tiled"]);
}

#[test]
fn errors_come_from_the_errors_they_wrap() {
    let e = muxed::snapshot::error::SnapshotError::from(CommonError::Target);
    assert_eq!(e.message(), "Tried to build an incompatible target");
    let e = muxed::new::NewError::from(CommonError::FirstRun("x".to_string()));
    assert_eq!(e.message(), "FirstRun error: x");
    let e = muxed::list::ListError::from(CommonError::Target);
    assert_eq!(e.message(), "Tried to build an incompatible target");
    assert!(matches!(EditError::from(CommonError::Target), EditError::Common(_)));
    let e = muxed::snapshot::error::SnapshotError::SessionTargetRequired;
    assert_eq!(e.message(), "No TMUX session was provided");
}
