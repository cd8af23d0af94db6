//! What loading a snapshot gives back of the session it was taken from.

use vstd::prelude::*;
use crate::load::enrichment::{enriched_root, enriched_window, path_or_root};
use crate::paths::starts_with_tilde;
use crate::snapshot::session_data::{cleared_pane_path, cleared_window};
use crate::tmux::config::Config;
use crate::tmux::window::WindowView;

verus! {

/// A path that needs no `~` expansion, as every path tmux reports.
pub open spec fn plain_path(p: Option<Seq<char>>) -> bool {
    p matches Some(x) ==> !starts_with_tilde(x)
}

/// A snapshot leaves out a window's path when the session's root says it;
/// loading the snapshot gives the window that path back, so every window with
/// a path opens where it was.
pub proof fn lemma_snapshot_restores_window_path(w: WindowView, root: Option<Seq<char>>, home: Option<Seq<char>>,
    name: Seq<char>, i: int, config: Config)
    requires
        w.path is Some,
        plain_path(w.path),
        plain_path(root),
    ensures
        enriched_window(cleared_window(w, root), name, i, config, enriched_root(root, home), home).path == w.path,
{
}

/// A snapshot leaves out a pane's path when its window's path (or, for a
/// window without one, the root) says it; loading the snapshot gives the pane
/// its path back, unless the window kept a path of its own and the pane's path
/// is that one: such a pane is given the root instead.
pub proof fn lemma_snapshot_restores_pane_path(w: WindowView, j: int, root: Option<Seq<char>>,
    home: Option<Seq<char>>, name: Seq<char>, i: int, config: Config)
    requires
        0 <= j < w.panes.len(),
        w.panes[j].path is Some,
        plain_path(w.panes[j].path),
        plain_path(root),
        !(cleared_window(w, root).path is Some && w.panes[j].path == cleared_window(w, root).path),
    ensures
        enriched_window(cleared_window(w, root), name, i, config, enriched_root(root, home), home).panes[j].path
            == w.panes[j].path,
{
    let cw = cleared_window(w, root);
    assert(cw.panes[j].path == cleared_pane_path(w.panes[j].path, cw.path, root));
}

} // verus!
