use muxed::snapshot::capture::retrieve_capture;
use muxed::snapshot::tmux::pane::Pane;
use muxed::snapshot::tmux::process::Process;
use muxed::snapshot::tmux::session::Session;
use muxed::snapshot::tmux::window::Window;
use muxed::snapshot::tmux::{inspect, Inspection};

#[test]
fn expect_some_from_active_window_line() {
    let line = "2: vim* (1 panes) [layout b5be,173x42,0,0,1]";
    let window = Window::from_line(line);
    assert!(window.is_some())
}

#[test]
fn expect_some_from_previous_window_line() {
    let line = "2: vim-  (1 panes) [layout b5be,173x42,0,0,1]";
    let window = Window::from_line(line);
    assert!(window.is_some())
}

#[test]
fn expect_some_from_window_line() {
    let line = "2: vim  (1 panes) [layout b5be,173x42,0,0,1]";
    let window = Window::from_line(line);
    assert!(window.is_some())
}

#[test]
fn expect_some_from_active_window_blank_name() {
    let line = "2: * (1 panes) [layout b5be,173x42,0,0,1]";
    let window = Window::from_line(line);
    assert!(window.is_some())
}

#[test]
fn expect_some_from_previous_window_blank_name() {
    let line = "2: - (1 panes) [layout b5be,173x42,0,0,1]";
    let window = Window::from_line(line);
    assert!(window.is_some())
}

#[test]
fn expect_some_with_blank_name() {
    let line = "2:   (1 panes) [layout b5be,173x42,0,0,1]";
    let window = Window::from_line(line);
    assert!(window.is_some())
}

#[test]
fn expect_none_from_line_missing_name() {
    let line = "2: (1 panes) [layout b5be,173x42,0,0,1]";
    let window = Window::from_line(line);
    assert!(window.is_none())
}

#[test]
fn expect_some_from_line_with_dollar_sign() {
    let line = "2: vim$ (1 panes) [layout b5be,173x42,0,0,1]";
    let window = Window::from_line(line);
    assert!(window.is_some())
}

#[test]
fn window_expect_active_to_be_true() {
    let line = "2: vim* (1 panes) [layout b5be,173x42,0,0,1]";
    let window = Window::from_line(line).unwrap();
    assert!(window.active)
}

#[test]
fn expect_active_to_be_true_without_name() {
    let line = "2: * (1 panes) [layout b5be,173x42,0,0,1]";
    let window = Window::from_line(line).unwrap();
    assert!(window.active)
}

#[test]
fn expect_name_to_be_vim() {
    let line = "2: vim* (1 panes) [layout b5be,173x42,0,0,1]";
    let window = Window::from_line(line).unwrap();
    assert_eq!(window.name, "vim")
}

#[test]
fn expect_layout_to_match() {
    let line = "2: vim* (1 panes) [layout b5be,173x42,0,0,1]";
    let window = Window::from_line(line).unwrap();
    assert_eq!(window.layout, "b5be,173x42,0,0,1")
}

#[test]
fn expect_active_to_be_false() {
    let line = "2: [123x14] (Path: /muxed-project/muxed) (PID: 22541)  ";
    let pane = Pane::from_line(line, None).unwrap();
    assert!(!pane.active)
}

#[test]
fn mod_expect_active_to_be_true() {
    let line = "1: [123x14] (Path: /muxed-project/muxed) (PID: 22541) (active)";
    let pane = Pane::from_line(line, None).unwrap();
    assert!(pane.active)
}

#[test]
fn expect_pane_to_match() {
    let line = "1: [123x14] (Path: /muxed/muxedsnapshot) (PID: 22541) (active)";
    let pane = Pane::from_line(line, None).unwrap();
    assert_eq!(pane.path, "/muxed/muxedsnapshot");
}

#[test]
fn expect_to_return_without_first_element() {
    let line = "85909 vim .";
    let process = Process::strip_pid(line);
    assert_eq!(process, "vim .")
}

#[test]
fn expect_cap_to_have_some() {
    let pattern = r"\w* (Bar) \w*";
    let line = "Foo Bar Foo";
    let cap = retrieve_capture(line, pattern);
    assert!(cap.is_some())
}

#[test]
fn expect_cap_to_be_bar() {
    let pattern = r"\w* (Bar) \w*";
    let line = "Foo Bar Foo";
    let cap = retrieve_capture(line, pattern).unwrap();
    assert_eq!(cap, "Bar")
}

#[test]
fn expect_cap_to_have_none() {
    let pattern = r"\w* (Bar) \w*";
    let line = "Foo Foo";
    let cap = retrieve_capture(line, pattern);
    assert!(cap.is_none())
}

#[test]
fn expect_cap_to_have_none_when_line_empty() {
    let pattern = r"\w* (Bar) \w*";
    let line = "";
    let cap = retrieve_capture(line, pattern);
    assert!(cap.is_none())
}

#[test]
fn expect_to_return_the_first_capture() {
    let pattern = r"(\wello\w).*";
    let line = "Yellow Mellow";
    let cap = retrieve_capture(line, pattern).unwrap();
    assert_eq!(cap, "Yellow")
}

#[test]
fn an_invalid_pattern_captures_nothing() {
    assert!(retrieve_capture("foo(bar", "foo(bar").is_none());
}

#[test]
fn pane_takes_the_process_pgrep_printed() {
    let line = "1: [123x14] (Path: /src) (PID: 77) (active)";
    let pane = Pane::from_line(line, Some("4242 cargo  watch -x test\n99 other\n".to_string())).unwrap();
    assert_eq!(pane.process.unwrap().process, "cargo watch -x test");
    let pane = Pane::from_line(line, Some(String::new())).unwrap();
    assert!(pane.process.is_none());
    let pid = Pane::pid_of_line(line).unwrap();
    assert_eq!(pid.pid, 77);
    assert_eq!(pid.pid_str, "77");
}

#[test]
fn lines_without_a_readable_pid_give_no_pane() {
    let line = "1: [123x14] (Path: /src) (PID: ) (active)";
    assert!(Pane::read_line(line, None).is_none());
    assert!(Pane::pid_of_line(line).is_none());
    assert!(Pane::from_line("1: [1x1] no path here", None).is_none());
}

#[test]
fn process_output_without_lines_is_an_error() {
    assert_eq!(Process::process_string_from_output(""), Err("No process found".to_string()));
    assert_eq!(Process::process_string_from_output("12 vim\r\n13 x"), Ok("vim".to_string()));
    assert_eq!(Process::strip_pid("  \t"), "");
    assert_eq!(Process::strip_pid("1"), "");
}

#[test]
fn inspection_reads_windows_then_their_panes() {
    let listing = "1: vim* (2 panes) [layout abc]\nnot a window line\n2: logs  (1 panes) [layout def]\n".to_string();
    let mut insp: Inspection = inspect("work", Ok(listing)).unwrap();
    assert_eq!(insp.next_pane_target(), Some("work:vim".to_string()));
    let lines = vec![
        "0: [1x1] (Path: /a) (PID: 1) (active)".to_string(),
        "garbage".to_string(),
        "1: [1x1] (Path: /b) (PID: 2)  ".to_string(),
    ];
    insp.add_panes(&lines, &vec![None, None, Some("2 htop".to_string())]);
    assert_eq!(insp.next_pane_target(), Some("work:logs".to_string()));
    insp.add_panes(&vec![], &vec![]);
    assert_eq!(insp.next_pane_target(), None);
    let session: Session = insp.finish();
    assert_eq!(session.name, "work");
    assert_eq!(session.windows.len(), 2);
    assert_eq!(session.windows[0].panes.len(), 2);
    assert!(session.windows[0].panes[0].active);
    assert_eq!(session.windows[0].panes[1].process.as_ref().unwrap().process, "htop");
    assert_eq!(session.find_window("logs").unwrap().layout, "def");
    assert!(session.find_window("nope").is_none());
}

#[test]
fn inspection_fails_without_windows() {
    let e = inspect("gone", Ok("\n".to_string())).err().unwrap();
    assert_eq!(e, "\u{1F613} The session gone was not found.");
    let e = inspect("gone", Err("no server".to_string())).err().unwrap();
    assert_eq!(e, "\u{1F613} The session gone was not found. - no server");
}
