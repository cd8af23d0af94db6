use muxed::tmux::target::{CommonError, Target};
use muxed::load::target::{PaneTarget, SessionTarget, WindowTarget};

#[test]
fn test_new_session_only() {
    let target = Target::new("session1", None, None);
    assert_eq!(target.session, "session1");
    assert_eq!(target.window, None);
    assert_eq!(target.pane, None);
    assert_eq!(target.combined, "session1");
}

#[test]
fn test_new_session_and_window() {
    let target = Target::new("mysession", Some(5), None);
    assert_eq!(target.session, "mysession");
    assert_eq!(target.window, Some(5));
    assert_eq!(target.pane, None);
    assert_eq!(target.combined, "mysession:5");
}

#[test]
fn test_new_full_target() {
    let target = Target::new("abc", Some(3), Some(2));
    assert_eq!(target.session, "abc");
    assert_eq!(target.window, Some(3));
    assert_eq!(target.pane, Some(2));
    assert_eq!(target.combined, "abc:3.2");
}

#[test]
fn test_extend_from_session_only() {
    let target = Target::new("x", None, None);
    let extended = target.extend(7).unwrap();
    assert_eq!(extended.session, "x");
    assert_eq!(extended.window, Some(7));
    assert_eq!(extended.pane, None);
    assert_eq!(extended.combined, "x:7");
}

#[test]
fn test_extend_from_session_and_window() {
    let target = Target::new("baz", Some(2), None);
    let extended = target.extend(9).unwrap();
    assert_eq!(extended.session, "baz");
    assert_eq!(extended.window, Some(2));
    assert_eq!(extended.pane, Some(9));
    assert_eq!(extended.combined, "baz:2.9");
}

#[test]
fn test_extend_from_full_target_fails() {
    let target = Target::new("zzz", Some(3), Some(5));
    let result = target.extend(8);
    assert!(matches!(result, Err(CommonError::Target)));
}

#[test]
fn test_extend_from_window_and_pane_none_fails() {
    let target = Target::new("foo", None, Some(1));
    let result = target.extend(42);
    assert!(matches!(result, Err(CommonError::Target)));
}

#[test]
fn targets_with_the_same_combined_string_are_equal() {
    let a = Target::new("s", Some(10), None);
    let b = Target::new("s", Some(10), None);
    let c = Target::new("s", Some(1), Some(0));
    assert_eq!(a, b);
    assert_ne!(a, c);
}

#[test]
fn extending_twice_reaches_a_pane() {
    let session = Target::new("work", None, None);
    let window = session.extend(1).unwrap();
    let pane = window.extend(0).unwrap();
    assert_eq!(pane.combined, "work:1.0");
    assert!(matches!(pane.extend(3), Err(CommonError::Target)));
}

#[test]
fn common_error_messages() {
    assert_eq!(CommonError::Target.message(), "Tried to build an incompatible target");
    assert_eq!(CommonError::ProjectPaths("x".to_string()).message(), "ProjectPaths error: x");
    assert_eq!(CommonError::FirstRun("y".to_string()).message(), "FirstRun error: y");
}

#[test]
fn named_targets_print_as_tmux_reads_them() {
    assert_eq!(PaneTarget::new("muxed", "editor", 2).to_string(), "muxed:editor.2");
    assert_eq!(WindowTarget::new("muxed", "editor").to_string(), "muxed:editor");
    assert_eq!(SessionTarget::new("muxed").to_string(), "muxed");
}
