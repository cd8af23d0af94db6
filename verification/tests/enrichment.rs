use muxed::load::enrichment::{enrich, enrich_with_home};
use muxed::load::to_command::Plan;
use muxed::paths::{expand_path, expand_path_with, homedir};
use muxed::tmux::config::Config;
use muxed::tmux::pane::Pane;
use muxed::tmux::session::Session;
use muxed::tmux::target::Target;
use muxed::tmux::window::Window;
use std::path::PathBuf;

fn test_config() -> Config {
    Config { base_index: 1, pane_base_index: 2 }
}

fn basic_session(root: Option<String>) -> Session {
    Session {
        name: None,
        windows: vec![Window {
            name: "alpha".to_string(),
            panes: vec![
                Pane { path: root.clone(), ..Default::default() },
                Pane { path: None, ..Default::default() },
            ],
            ..Default::default()
        }],
        root,
        ..Default::default()
    }
}

fn home_join(sub: &str) -> String {
    PathBuf::from(homedir().unwrap()).join(sub).to_str().unwrap().to_string()
}

#[test]
fn assigns_project_name_and_config() {
    let mut sess = Session::default();
    let conf = test_config();
    enrich(&mut sess, "projA".into(), false, conf.clone());
    assert_eq!(sess.name.as_deref(), Some("projA"));
    assert_eq!(sess.config.as_ref(), Some(&conf));
}

#[test]
fn sets_daemonize_field_true_or_none() {
    let mut sess = Session::default();
    enrich(&mut sess, "proj".into(), true, Config::default());
    assert_eq!(sess.daemonize, Some(true));

    let mut sess2 = Session::default();
    enrich(&mut sess2, "proj2".into(), false, Config::default());
    assert_eq!(sess2.daemonize, None);
}

#[test]
fn expands_root_tilde_to_home() {
    let tilde = "~/my-root-folder";
    let mut sess = basic_session(Some(tilde.to_string()));
    enrich(&mut sess, "x".into(), false, Config::default());
    let expected = home_join("my-root-folder");
    assert_eq!(sess.root, Some(expected));
}

#[test]
fn leaves_absolute_and_relative_paths_unmodified() {
    let abs = "/tmp/abspath";
    let mut sess = basic_session(Some(abs.to_string()));
    enrich(&mut sess, "z".into(), false, Config::default());
    assert_eq!(sess.root, Some(abs.to_string()));

    let rel = "foo/bar";
    let mut sess2 = basic_session(Some(rel.to_string()));
    enrich(&mut sess2, "y".into(), false, Config::default());
    assert_eq!(sess2.root, Some(rel.to_string()));
}

#[test]
fn expands_pane_and_window_paths() {
    let tilde = "~/stuff";
    let mut sess = basic_session(Some(tilde.to_string()));
    enrich(&mut sess, "proj".into(), false, Config::default());

    let expected = home_join("stuff");
    assert_eq!(sess.windows[0].panes[0].path, Some(expected.clone()));
    assert_eq!(sess.windows[0].panes[1].path, Some(expected));
}

#[test]
fn sets_targets_on_windows_and_panes_with_config_base_indices() {
    let mut sess = basic_session(Some("abc".to_string()));
    let conf = Config { base_index: 7, pane_base_index: 3 };
    enrich(&mut sess, "thing".into(), false, conf);

    let window_target = &sess.windows[0].target;
    assert_eq!(window_target.as_ref().unwrap().session, "thing");
    assert_eq!(window_target.as_ref().unwrap().window, Some(7));

    let pane0_target = &sess.windows[0].panes[0].target;
    assert_eq!(pane0_target.as_ref().unwrap().session, "thing");
    assert_eq!(pane0_target.as_ref().unwrap().window, Some(7));
    assert_eq!(pane0_target.as_ref().unwrap().pane, Some(3));
}

#[test]
fn preserves_existing_targets_if_present() {
    let mut sess = basic_session(Some("root".to_string()));
    sess.windows[0].target = Some(Target::new("custom", Some(123), None));
    sess.windows[0].panes[0].target = Some(Target::new("pre", Some(1), Some(99)));
    enrich(&mut sess, "repl".into(), false, Config::default());

    assert_eq!(sess.windows[0].target.as_ref().unwrap().session, "repl");
    assert_eq!(sess.windows[0].panes[0].target.as_ref().unwrap().session, "repl");
}

#[test]
fn no_root_means_no_path_expansion() {
    let mut sess = basic_session(None);
    enrich(&mut sess, "proj".into(), false, Config::default());
    assert_eq!(sess.windows[0].panes[0].path, None);
    assert_eq!(sess.windows[0].panes[1].path, None);
    assert_eq!(sess.windows[0].path, None);
}

#[test]
fn works_with_multiple_windows_and_panes() {
    let mut sess = Session {
        name: None,
        windows: vec![
            Window { name: "w0".to_string(), panes: vec![Pane::default()], ..Default::default() },
            Window {
                name: "w1".to_string(),
                panes: vec![Pane { path: Some("~/bin".to_string()), ..Default::default() }, Pane::default()],
                ..Default::default()
            },
        ],
        root: Some("/tmp/abc".to_string()),
        ..Default::default()
    };
    enrich(&mut sess, "xy".into(), false, Config::default());

    assert_eq!(sess.windows[0].panes[0].path, Some("/tmp/abc".to_string()));
    let home_bin = home_join("bin");
    assert_eq!(sess.windows[1].panes[0].path, Some(home_bin));
}

#[test]
fn session_fields_unchanged_if_no_op() {
    let mut sess = Session { name: Some("noop".to_string()), root: None, ..Default::default() };
    let orig_name = sess.name.clone();
    let orig_root = sess.root.clone();
    enrich(&mut sess, "noop".to_string(), false, Config::default());
    assert_eq!(sess.name, orig_name);
    assert_eq!(sess.root, orig_root);
}

#[test]
fn expands_tilde_to_home() {
    let result = expand_path("~");
    assert_eq!(result, homedir());
}

#[test]
fn expands_tilde_prefix_with_subdirs() {
    let result = expand_path("~/some/folder");
    let mut expected = PathBuf::from(homedir().unwrap());
    expected.push("some");
    expected.push("folder");
    assert_eq!(result, Some(expected.to_str().unwrap().to_string()));
}

#[test]
fn leaves_absolute_path_unmodified() {
    let result = expand_path("/usr/local/bin");
    assert_eq!(result, Some("/usr/local/bin".to_string()));
}

#[test]
fn leaves_relative_path_unmodified() {
    let result = expand_path("foo/bar/baz");
    assert_eq!(result, Some("foo/bar/baz".to_string()));
}

#[test]
fn expansion_against_a_given_home() {
    let home = Some("/home/ann".to_string());
    assert_eq!(expand_path_with("~", &home), Some("/home/ann".to_string()));
    assert_eq!(expand_path_with("~/a//b/./c/", &home), Some("/home/ann/a/b/c".to_string()));
    assert_eq!(expand_path_with("~x/a", &home), Some("~x/a".to_string()));
    assert_eq!(expand_path_with("~/a", &None), None);
    assert_eq!(expand_path_with("/abs", &None), Some("/abs".to_string()));
    let root_home = Some("/".to_string());
    assert_eq!(expand_path_with("~/x", &root_home), Some("/x".to_string()));
}

#[test]
fn enrichment_numbers_every_window_and_pane() {
    let mut sess = Session {
        windows: vec![
            Window { name: "a".to_string(), panes: vec![Pane::default(), Pane::default()], ..Default::default() },
            Window { name: "b".to_string(), panes: vec![Pane::default()], ..Default::default() },
        ],
        root: Some("~/r".to_string()),
        ..Default::default()
    };
    let home = Some("/h".to_string());
    enrich_with_home(&mut sess, "p", false, Config { base_index: 1, pane_base_index: 2 }, &home);
    assert_eq!(sess.root, Some("/h/r".to_string()));
    assert_eq!(sess.target.as_ref().unwrap().combined, "p");
    assert_eq!(sess.windows[0].target.as_ref().unwrap().combined, "p:1");
    assert_eq!(sess.windows[1].target.as_ref().unwrap().combined, "p:2");
    assert_eq!(sess.windows[0].panes[1].target.as_ref().unwrap().combined, "p:1.3");
    assert_eq!(sess.windows[1].panes[0].target.as_ref().unwrap().combined, "p:2.2");
    assert_eq!(sess.windows[1].path, Some("/h/r".to_string()));
}

#[test]
fn a_window_path_takes_priority_over_the_root() {
    let mut sess = Session {
        windows: vec![Window {
            name: "editor".to_string(),
            path: Some("/tmp/own".to_string()),
            panes: vec![Pane { command: Some("ls".to_string()), ..Default::default() }],
            ..Default::default()
        }],
        root: Some("~/".to_string()),
        ..Default::default()
    };
    enrich_with_home(&mut sess, "p", false, Config::default(), &Some("/home/u".to_string()));
    assert_eq!(sess.root, Some("/home/u".to_string()));
    assert_eq!(sess.windows[0].path, Some("/tmp/own".to_string()));
    let commands = sess.command_plan().unwrap();
    assert_eq!(commands[1].args(), vec!["send-keys", "-t", "p:0", "cd /tmp/own", "KPEnter"]);
}
