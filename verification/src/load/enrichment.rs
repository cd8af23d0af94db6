//! Enrichment: giving a configured session its name, targets and expanded paths
//! before it is planned.

use vstd::prelude::*;
use crate::paths::{expand_path_spec, expand_path_with, homedir};
use crate::tmux::config::Config;
use crate::tmux::pane::{Pane, PaneView};
use crate::tmux::session::{Session, SessionView};
use crate::tmux::target::{Target, TargetView, combined_of};
use crate::tmux::window::{Window, WindowView};

verus! {

/// The target of a session, window or pane of the named session.
pub open spec fn target_view(name: Seq<char>, window: Option<usize>, pane: Option<usize>) -> TargetView {
    TargetView { session: name, window, pane, combined: combined_of(name, window, pane) }
}

/// A configured path, expanded; or the session's root when there is none.
pub open spec fn path_or_root(path: Option<Seq<char>>, root: Option<Seq<char>>, home: Option<Seq<char>>) -> Option<Seq<char>> {
    match path {
        Some(p) => expand_path_spec(p, home),
        None => root,
    }
}

/// A pane after enrichment: its path expanded (or the root), its target set.
pub open spec fn enriched_pane(p: PaneView, name: Seq<char>, wi: usize, pi: usize,
    root: Option<Seq<char>>, home: Option<Seq<char>>) -> PaneView {
    PaneView {
        active: p.active,
        command: p.command,
        path: path_or_root(p.path, root, home),
        target: Some(target_view(name, Some(wi), Some(pi))),
    }
}

/// A window after enrichment: its path expanded (or the root), its target set,
/// and each of its panes enriched with its own number.
pub open spec fn enriched_window(w: WindowView, name: Seq<char>, i: int, config: Config,
    root: Option<Seq<char>>, home: Option<Seq<char>>) -> WindowView {
    WindowView {
        active: w.active,
        command: w.command,
        layout: w.layout,
        name: w.name,
        panes: Seq::new(w.panes.len(), |j: int| enriched_pane(w.panes[j], name,
            (i + config.base_index) as usize, (j + config.pane_base_index) as usize, root, home)),
        path: path_or_root(w.path, root, home),
        target: Some(target_view(name, Some((i + config.base_index) as usize), None)),
    }
}

/// The session's root after enrichment.
pub open spec fn enriched_root(root: Option<Seq<char>>, home: Option<Seq<char>>) -> Option<Seq<char>> {
    match root {
        Some(r) => expand_path_spec(r, home),
        None => None,
    }
}

/// The whole session after enrichment with the given home directory.
pub open spec fn enriched_session(s: SessionView, name: Seq<char>, daemonize: bool, config: Config,
    home: Option<Seq<char>>) -> SessionView {
    let root = enriched_root(s.root, home);
    SessionView {
        name: Some(name),
        pre: s.pre,
        pre_window: s.pre_window,
        root: root,
        windows: Seq::new(s.windows.len(), |i: int| enriched_window(s.windows[i], name, i, config, root, home)),
        target: Some(target_view(name, None, None)),
        daemonize: if daemonize { Some(true) } else { s.daemonize },
        config: Some(config),
    }
}

/// Window and pane numbers stay within `usize` once the base indices are added.
pub open spec fn indices_fit(s: SessionView, config: Config) -> bool {
    &&& s.windows.len() == 0 || config.base_index + s.windows.len() - 1 <= usize::MAX
    &&& forall|i: int| 0 <= i < s.windows.len() ==>
            (#[trigger] s.windows[i]).panes.len() == 0
            || config.pane_base_index + s.windows[i].panes.len() - 1 <= usize::MAX
}

fn path_or_root_exec(path: &Option<String>, root: &Option<String>, home: &Option<String>) -> (r: Option<String>)
    ensures
        r.deep_view() == path_or_root(path.deep_view(), root.deep_view(), home.deep_view()),
{
    match path {
        Some(p) => expand_path_with(p.as_str(), home),
        None => crate::text::clone_opt_string(root),
    }
}

fn enrich_window(w: Window, name: &str, i: usize, config: Config, root: &Option<String>, home: &Option<String>) -> (r: Window)
    requires
        i + config.base_index <= usize::MAX,
        w.panes@.len() == 0 || config.pane_base_index + w.panes@.len() - 1 <= usize::MAX,
    ensures
        r.deep_view() == enriched_window(w.deep_view(), name@, i as int, config, root.deep_view(), home.deep_view()),
{
    let ghost wv = w.deep_view();
    let wi = i + config.base_index;
    let mut rest = w.panes;
    let ghost orig = rest@;
    assert(wv.panes =~= Seq::new(orig.len(), |k: int| orig[k].deep_view()));
    let mut panes: Vec<Pane> = Vec::new();
    while rest.len() > 0
        invariant
            panes.len() + rest.len() == orig.len(),
            rest@ == orig.subrange(panes.len() as int, orig.len() as int),
            orig.len() == 0 || config.pane_base_index + orig.len() - 1 <= usize::MAX,
            wv.panes == Seq::new(orig.len(), |k: int| orig[k].deep_view()),
            forall|k: int| 0 <= k < panes.len() ==> (#[trigger] panes@[k]).deep_view()
                == enriched_pane(orig[k].deep_view(), name@, wi, (k + config.pane_base_index) as usize,
                    root.deep_view(), home.deep_view()),
        decreases rest.len(),
    {
        let j = panes.len();
        let p = rest.remove(0);
        assert(p == orig[j as int]);
        let path = path_or_root_exec(&p.path, root, home);
        let target = Target::new(name, Some(wi), Some(j + config.pane_base_index));
        panes.push(Pane { active: p.active, command: p.command, path, target: Some(target) });
    }
    let path = path_or_root_exec(&w.path, root, home);
    let target = Target::new(name, Some(wi), None);
    let r = Window {
        active: w.active,
        command: w.command,
        layout: w.layout,
        name: w.name,
        panes,
        path,
        target: Some(target),
    };
    assert(r.panes.deep_view() =~= enriched_window(wv, name@, i as int, config, root.deep_view(), home.deep_view()).panes);
    r
}

/// Enriches a session with the given home directory for `~` expansion: the
/// session gets the project's name, the config and its own target, and is
/// marked detached when asked; its root is expanded; every window gets its
/// target (numbered from `base_index`) and its path expanded, or the root when
/// it has none; every pane gets its target (numbered from `pane_base_index`)
/// and its path expanded, or the session's root when it has none.
pub fn enrich_with_home(session: &mut Session, project_name: &str, daemonize: bool, config: Config, home: &Option<String>)
    requires
        indices_fit(old(session).deep_view(), config),
    ensures
        final(session).deep_view() == enriched_session(old(session).deep_view(), project_name@, daemonize, config, home.deep_view()),
{
    let ghost sv = session.deep_view();
    session.name = Some(String::from_str(project_name));
    session.config = Some(config);
    session.target = Some(Target::new(project_name, None, None));
    if daemonize {
        session.daemonize = Some(daemonize);
    }
    let root = match session.root.as_ref() {
        Some(r) => expand_path_with(r.as_str(), home),
        None => None,
    };
    session.root = crate::text::clone_opt_string(&root);
    let mut rest: Vec<Window> = Vec::new();
    std::mem::swap(&mut rest, &mut session.windows);
    let ghost orig = rest@;
    assert(sv.windows =~= Seq::new(orig.len(), |k: int| orig[k].deep_view()));
    let mut windows: Vec<Window> = Vec::new();
    while rest.len() > 0
        invariant
            windows.len() + rest.len() == orig.len(),
            rest@ == orig.subrange(windows.len() as int, orig.len() as int),
            sv.windows == Seq::new(orig.len(), |k: int| orig[k].deep_view()),
            indices_fit(sv, config),
            root.deep_view() == enriched_root(sv.root, home.deep_view()),
            forall|k: int| 0 <= k < windows.len() ==> (#[trigger] windows@[k]).deep_view()
                == enriched_window(orig[k].deep_view(), project_name@, k, config, root.deep_view(), home.deep_view()),
        decreases rest.len(),
    {
        let i = windows.len();
        let w = rest.remove(0);
        assert(w == orig[i as int]);
        assert(sv.windows[i as int] == w.deep_view());
        windows.push(enrich_window(w, project_name, i, config, &root, home));
    }
    session.windows = windows;
    assert(session.windows.deep_view() =~= enriched_session(sv, project_name@, daemonize, config, home.deep_view()).windows);
}

/// Enriches a session, expanding `~` against the user's home directory
/// (looked up once). See `enrich_with_home`.
pub fn enrich(session: &mut Session, project_name: String, daemonize: bool, config: Config)
    requires
        indices_fit(old(session).deep_view(), config),
    ensures
        exists|home: Option<Seq<char>>| final(session).deep_view()
            == #[trigger] enriched_session(old(session).deep_view(), project_name@, daemonize, config, home),
{
    let home = homedir();
    enrich_with_home(session, project_name.as_str(), daemonize, config, &home);
}

} // verus!
