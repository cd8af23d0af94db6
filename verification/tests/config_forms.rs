use muxed::tmux::pane::{Pane, PaneInner, PaneRepr};
use muxed::tmux::pre::{Pre, PreRepr};
use muxed::tmux::session::{NodeMut, NodeRef, Session};
use muxed::tmux::window::{DirectWindow, Inner, InnerOrString, Window, WindowRepr, WindowReprError};

fn keyed(name: &str, value: InnerOrString) -> WindowRepr {
    WindowRepr::Keyed(vec![(name.to_string(), value)])
}

fn panes(cmds: &[&str]) -> Option<Vec<PaneRepr>> {
    Some(cmds.iter().map(|c| PaneRepr::Str(c.to_string())).collect())
}

#[test]
fn pane_deserializes_from_string() {
    let pane = Pane::from_repr(PaneRepr::Str("htop".to_string()));
    assert_eq!(pane.active, false);
    assert_eq!(pane.command, Some("htop".to_string()));
    assert!(pane.path.is_none());
    assert!(pane.target.is_none());
}

#[test]
fn deserializes_from_map_full() {
    let pane = Pane::from_repr(PaneRepr::Fields(PaneInner {
        active: Some(true),
        command: Some("ls".to_string()),
        path: Some("/tmp".to_string()),
    }));
    assert_eq!(pane.active, true);
    assert_eq!(pane.command, Some("ls".to_string()));
    assert_eq!(pane.path.unwrap(), "/tmp");
    assert!(pane.target.is_none());
}

#[test]
fn deserializes_from_map_partial() {
    let pane = Pane::from_repr(PaneRepr::Fields(PaneInner { active: None, command: Some("ls".to_string()), path: None }));
    assert_eq!(pane.active, false);
    assert_eq!(pane.command, Some("ls".to_string()));
    assert!(pane.path.is_none());
    assert!(pane.target.is_none());
}

#[test]
fn deserializes_empty_map() {
    let pane = Pane::from_repr(PaneRepr::Fields(PaneInner { active: None, command: None, path: None }));
    assert_eq!(pane.active, false);
    assert!(pane.command.is_none());
    assert!(pane.path.is_none());
    assert!(pane.target.is_none());
}

#[test]
fn test_deserialize_single_string() {
    let p = Pre::from_repr(PreRepr::Str("hello".to_string()));
    assert_eq!(p.0, vec!["hello".to_string()]);
}

#[test]
fn test_deserialize_list_of_strings() {
    let p = Pre::from_repr(PreRepr::List(vec!["foo".to_string(), "bar".to_string()]));
    assert_eq!(p.0, vec!["foo".to_string(), "bar".to_string()]);
}

#[test]
fn test_deserialize_empty_array() {
    let p = Pre::from_repr(PreRepr::List(vec![]));
    assert_eq!(p.0, Vec::<String>::new());
}

#[test]
fn test_deserialize_empty_string() {
    let p = Pre::from_repr(PreRepr::Str(String::new()));
    assert_eq!(p.0, Vec::<String>::new());
}

#[test]
fn window_deserializes_from_string() {
    let window = Window::from_repr(WindowRepr::Str("vim".to_string())).unwrap();
    assert_eq!(window.name, "vim");
    assert_eq!(window.command, Some("vim".to_string()));
    assert_eq!(window.panes.len(), 0);
    assert!(!window.active);
}

#[test]
fn deserializes_from_integer() {
    let window = Window::from_repr(WindowRepr::Num(42)).unwrap();
    assert_eq!(window.name, "42");
    assert!(window.command.is_none());
    assert_eq!(window.panes.len(), 0);
    assert!(!window.active);
}

#[test]
fn a_negative_number_names_a_window_with_its_sign() {
    let window = Window::from_repr(WindowRepr::Num(-3)).unwrap();
    assert_eq!(window.name, "-3");
    assert!(window.command.is_none());
}

#[test]
fn deserializes_from_map_with_string() {
    let window = Window::from_repr(keyed("edit", InnerOrString::Str("vim".to_string()))).unwrap();
    assert_eq!(window.name(), "edit");
    assert_eq!(window.command, Some("vim".to_string()));
    assert_eq!(window.panes.len(), 0);
    assert!(!window.active);
}

#[test]
fn deserializes_from_map_with_inner() {
    let window = Window::from_repr(keyed(
        "term",
        InnerOrString::Inner(Inner {
            layout: Some("even-horizontal".to_string()),
            panes: panes(&["htop", "ranger"]),
            active: Some(true),
            path: Some("/tmp".to_string()),
            command: Some("mycmd".to_string()),
        }),
    ))
    .unwrap();
    assert_eq!(window.name, "term");
    assert_eq!(window.layout.as_ref().unwrap().to_string(), "even-horizontal");
    assert_eq!(window.panes.len(), 2);
    assert_eq!(window.panes[0].command.as_ref().unwrap(), "htop");
    assert_eq!(window.panes[1].command.as_ref().unwrap(), "ranger");
    assert_eq!(window.active, true);
    assert_eq!(window.command.as_ref().unwrap(), "mycmd");
    assert_eq!(window.path.as_ref().unwrap(), "/tmp");
}

#[test]
fn errors_on_map_with_multiple_keys() {
    let two = WindowRepr::Keyed(vec![
        ("foo".to_string(), InnerOrString::Str("bar".to_string())),
        ("baz".to_string(), InnerOrString::Str("qux".to_string())),
    ]);
    assert!(Window::from_repr(two).is_err());
}

#[test]
fn errors_on_map_with_empty_key() {
    let empty = keyed("", InnerOrString::Str("bar".to_string()));
    assert!(Window::from_repr(empty).is_err());
}

#[test]
fn deserializes_legacy_direct_format() {
    let window = Window::from_repr(WindowRepr::Direct(DirectWindow {
        name: "editor".to_string(),
        layout: Some("even-horizontal".to_string()),
        panes: panes(&["htop", "ranger"]),
        active: Some(true),
        path: Some("/tmp".to_string()),
        command: Some("mycmd".to_string()),
    }))
    .unwrap();
    assert_eq!(window.name, "editor");
    assert_eq!(window.layout.as_ref().unwrap().to_string(), "even-horizontal");
    assert_eq!(window.panes.len(), 2);
    assert!(window.active);
    assert_eq!(window.command.as_ref().unwrap(), "mycmd");
    assert_eq!(window.path.as_ref().unwrap(), "/tmp");
}

#[test]
fn test_various_windows() {
    let empty = || InnerOrString::Inner(Inner { layout: None, panes: None, active: None, path: None, command: None });
    let samples: Vec<Vec<WindowRepr>> = vec![
        ["cargo", "vim", "git"].iter().map(|n| WindowRepr::Str(n.to_string())).collect(),
        vec![WindowRepr::Num(1), WindowRepr::Str("vim".to_string()), WindowRepr::Num(3)],
        ["cargo", "vim", "git"].iter().map(|n| keyed(n, InnerOrString::Str(String::new()))).collect(),
        vec![keyed("editor", empty())],
    ];
    for windows in samples {
        for w in windows {
            assert!(Window::from_repr(w).is_ok());
        }
    }
    // A window whose key is the null `~` is refused.
    let bad = keyed("~", InnerOrString::Str("ls".to_string()));
    assert!(Window::from_repr(bad).is_err());
}

#[test]
fn window_maps_need_one_named_key() {
    let two = WindowRepr::Keyed(vec![
        ("foo".to_string(), InnerOrString::Str("bar".to_string())),
        ("baz".to_string(), InnerOrString::Str("qux".to_string())),
    ]);
    assert!(matches!(Window::from_repr(two), Err(WindowReprError::NotSingleKey)));
    let empty = WindowRepr::Keyed(vec![(String::new(), InnerOrString::Str("bar".to_string()))]);
    assert!(matches!(Window::from_repr(empty), Err(WindowReprError::EmptyName)));
    let tilde = WindowRepr::Keyed(vec![("~".to_string(), InnerOrString::Str("ls".to_string()))]);
    assert!(matches!(Window::from_repr(tilde), Err(WindowReprError::EmptyName)));
    assert_eq!(WindowReprError::EmptyName.message(), "window name cannot be empty");
}

#[test]
fn a_walk_visits_each_window_then_its_panes() {
    let s = Session {
        windows: vec![
            Window { name: "a".to_string(), panes: vec![Pane::default(), Pane::default()], ..Default::default() },
            Window { name: "b".to_string(), ..Default::default() },
        ],
        ..Default::default()
    };
    let mut it = s.iter();
    let mut seen = Vec::new();
    while let Some(node) = it.next() {
        seen.push(match node {
            NodeRef::Window { index, window } => format!("w{}{}", index, window.name),
            NodeRef::Pane { window_index, pane_index, .. } => format!("p{}.{}", window_index, pane_index),
        });
    }
    assert_eq!(seen, vec!["w0a", "p0.0", "p0.1", "w1b"]);

    let mut s = s;
    let mut it = s.iter_mut();
    let mut places = Vec::new();
    while let Some(node) = it.next() {
        places.push(match node {
            NodeMut::Window { index } => (index, None),
            NodeMut::Pane { window_index, pane_index } => (window_index, Some(pane_index)),
        });
    }
    assert_eq!(places, vec![(0, None), (0, Some(0)), (0, Some(1)), (1, None)]);
    assert!(s.pre().is_none());
    assert!(s.pre_window().is_none());
}
