//! What every successful plan holds, whatever the session: how many
//! commands of each kind it has, and where the `pre` commands and the attach
//! stand.

use vstd::prelude::*;
use crate::load::command::CommandView;
use crate::load::to_command::{
    stays_detached,
    attach_cmds, cd_opt, keys_opt, layout_opt, node_cmds, opening_cmd, pane_cmds, plan_spec,
    pre_cmds, pre_window_keys, selection_cmds, splits, splits_for, walk_cmds, window_cmds,
    active_target,
};
use crate::load::enrichment::enriched_session;
use crate::snapshot::laws::plain_path;
use crate::paths::{expand_path_spec, flush_segment, push_component, push_components, starts_with_tilde};
use crate::load::to_command::extend_view;
use crate::tmux::config::Config;
use crate::tmux::session::{NodePos, Session, SessionView, flat_nodes, window_block};
use crate::tmux::window::WindowView;

verus! {

/// The kinds of command a plan holds.
pub enum CommandKind {
    Attach,
    Layout,
    Pre,
    SelectPane,
    SelectWindow,
    SendKeys,
    Session,
    Split,
    Window,
    SwitchClient,
}

/// The kind of a command.
pub open spec fn kind_of(c: CommandView) -> CommandKind {
    match c {
        CommandView::Attach { .. } => CommandKind::Attach,
        CommandView::Layout { .. } => CommandKind::Layout,
        CommandView::Pre { .. } => CommandKind::Pre,
        CommandView::SelectPane { .. } => CommandKind::SelectPane,
        CommandView::SelectWindow { .. } => CommandKind::SelectWindow,
        CommandView::SendKeys { .. } => CommandKind::SendKeys,
        CommandView::Session { .. } => CommandKind::Session,
        CommandView::Split { .. } => CommandKind::Split,
        CommandView::Window { .. } => CommandKind::Window,
        CommandView::SwitchClient { .. } => CommandKind::SwitchClient,
    }
}

/// How many commands of kind `k` a list holds.
pub open spec fn count_kind(cmds: Seq<CommandView>, k: CommandKind) -> nat
    decreases cmds.len(),
{
    if cmds.len() == 0 {
        0
    } else {
        count_kind(cmds.drop_last(), k) + if kind_of(cmds.last()) == k { 1nat } else { 0nat }
    }
}

pub proof fn lemma_count_concat(a: Seq<CommandView>, b: Seq<CommandView>, k: CommandKind)
    ensures
        count_kind(a + b, k) == count_kind(a, k) + count_kind(b, k),
    decreases b.len(),
{
    if b.len() == 0 {
        assert(a + b =~= a);
    } else {
        lemma_count_concat(a, b.drop_last(), k);
        assert((a + b).drop_last() =~= a + b.drop_last());
    }
}

proof fn lemma_count_uniform(s: Seq<CommandView>, k0: CommandKind, k: CommandKind)
    requires
        forall|i: int| 0 <= i < s.len() ==> kind_of(#[trigger] s[i]) == k0,
    ensures
        count_kind(s, k) == if k0 == k { s.len() } else { 0 },
    decreases s.len(),
{
    if s.len() > 0 {
        lemma_count_uniform(s.drop_last(), k0, k);
    }
}

/// The commands of kind `k` that a node of the walk gives when it succeeds.
pub open spec fn node_formula(sv: SessionView, pos: NodePos, k: CommandKind) -> nat {
    match pos {
        NodePos::Window(i) => match k {
            CommandKind::Session => if i == 0 { 1 } else { 0 },
            CommandKind::Window => if i == 0 { 0 } else { 1 },
            CommandKind::Split => splits_for(sv.windows[i].panes.len()),
            CommandKind::Layout => if sv.windows[i].layout is Some { 1 } else { 0 },
            _ => 0,
        },
        NodePos::Pane(i, j) => match k {
            CommandKind::SelectPane => if sv.windows[i].panes[j].active { 1 } else { 0 },
            _ => 0,
        },
    }
}

/// The kinds whose counts the laws below state.
pub open spec fn counted(k: CommandKind) -> bool {
    ||| k == CommandKind::Session
    ||| k == CommandKind::Window
    ||| k == CommandKind::Split
    ||| k == CommandKind::Layout
    ||| k == CommandKind::SelectPane
    ||| k == CommandKind::SelectWindow
    ||| k == CommandKind::Attach
    ||| k == CommandKind::Pre
}

proof fn lemma_node_count(sv: SessionView, pos: NodePos, k: CommandKind)
    requires
        node_cmds(sv, pos) is Ok,
        counted(k),
    ensures
        count_kind(node_cmds(sv, pos)->Ok_0, k) == node_formula(sv, pos, k),
{
    match pos {
        NodePos::Window(i) => {
            let w = sv.windows[i];
            let name = sv.name->0;
            let t = w.target->0;
            let a = seq![opening_cmd(sv, name, w, t, i == 0)];
            let b = cd_opt(t, w.path);
            let c = pre_window_keys(t, sv.pre_window);
            let d = splits(t, w.path, splits_for(w.panes.len()));
            let e = layout_opt(t, w.layout);
            let f = keys_opt(t, w.command);
            assert(window_cmds(sv, w, i == 0) == Ok::<Seq<CommandView>, crate::load::error::InterpreterError>(a + b + c + d + e + f));
            lemma_count_concat(a + b + c + d + e, f, k);
            lemma_count_concat(a + b + c + d, e, k);
            lemma_count_concat(a + b + c, d, k);
            lemma_count_concat(a + b, c, k);
            lemma_count_concat(a, b, k);
            lemma_count_uniform(b, CommandKind::SendKeys, k);
            lemma_count_uniform(c, CommandKind::SendKeys, k);
            lemma_count_uniform(d, CommandKind::Split, k);
            lemma_count_uniform(e, CommandKind::Layout, k);
            lemma_count_uniform(f, CommandKind::SendKeys, k);
            assert(count_kind(a, k) == count_kind(Seq::<CommandView>::empty(), k) + if kind_of(a[0]) == k { 1nat } else { 0nat }) by {
                assert(a.drop_last() =~= Seq::<CommandView>::empty());
            }
        },
        NodePos::Pane(i, j) => {
            let p = sv.windows[i].panes[j];
            let t = p.target->0;
            let a = pre_window_keys(t, sv.pre_window);
            let b = keys_opt(t, p.command);
            let c: Seq<CommandView> = if p.active { seq![CommandView::SelectPane { target: t }] } else { Seq::empty() };
            assert(pane_cmds(sv, p) == Ok::<Seq<CommandView>, crate::load::error::InterpreterError>(a + b + c));
            lemma_count_concat(a + b, c, k);
            lemma_count_concat(a, b, k);
            lemma_count_uniform(a, CommandKind::SendKeys, k);
            lemma_count_uniform(b, CommandKind::SendKeys, k);
            lemma_count_uniform(c, CommandKind::SelectPane, k);
        },
    }
}


/// The commands of kind `k` that the nodes give, together.
pub open spec fn sum_formula(sv: SessionView, nodes: Seq<NodePos>, k: CommandKind) -> nat
    decreases nodes.len(),
{
    if nodes.len() == 0 {
        0
    } else {
        sum_formula(sv, nodes.drop_last(), k) + node_formula(sv, nodes.last(), k)
    }
}

proof fn lemma_sum_concat(sv: SessionView, a: Seq<NodePos>, b: Seq<NodePos>, k: CommandKind)
    ensures
        sum_formula(sv, a + b, k) == sum_formula(sv, a, k) + sum_formula(sv, b, k),
    decreases b.len(),
{
    if b.len() == 0 {
        assert(a + b =~= a);
    } else {
        lemma_sum_concat(sv, a, b.drop_last(), k);
        assert((a + b).drop_last() =~= a + b.drop_last());
    }
}

proof fn lemma_walk_count(s: Session, n: nat, k: CommandKind)
    requires
        n <= flat_nodes(s.windows@).len(),
        walk_cmds(s, n) is Ok,
        counted(k),
    ensures
        count_kind(walk_cmds(s, n)->Ok_0, k) == sum_formula(s.deep_view(), flat_nodes(s.windows@).take(n as int), k),
    decreases n,
{
    let nodes = flat_nodes(s.windows@);
    if n == 0 {
        assert(nodes.take(0) =~= Seq::<NodePos>::empty());
    } else {
        let prev = walk_cmds(s, (n - 1) as nat);
        assert(prev is Ok);
        lemma_walk_count(s, (n - 1) as nat, k);
        let c = node_cmds(s.deep_view(), nodes[n - 1]);
        assert(c is Ok);
        lemma_node_count(s.deep_view(), nodes[n - 1], k);
        lemma_count_concat(prev->Ok_0, c->Ok_0, k);
        assert(nodes.take(n as int).drop_last() =~= nodes.take(n - 1));
    }
}

/// How many panes of a window are active.
pub open spec fn active_count(panes: Seq<crate::tmux::pane::PaneView>) -> nat
    decreases panes.len(),
{
    if panes.len() == 0 {
        0
    } else {
        active_count(panes.drop_last()) + if panes.last().active { 1nat } else { 0nat }
    }
}

/// How many splits the windows need: one fewer than each window's panes.
pub open spec fn total_splits(ws: Seq<WindowView>) -> nat
    decreases ws.len(),
{
    if ws.len() == 0 { 0 } else { total_splits(ws.drop_last()) + splits_for(ws.last().panes.len()) }
}

/// How many windows set a layout.
pub open spec fn layout_count(ws: Seq<WindowView>) -> nat
    decreases ws.len(),
{
    if ws.len() == 0 { 0 } else { layout_count(ws.drop_last()) + if ws.last().layout is Some { 1nat } else { 0nat } }
}

/// How many panes of all windows are active.
pub open spec fn active_panes(ws: Seq<WindowView>) -> nat
    decreases ws.len(),
{
    if ws.len() == 0 { 0 } else { active_panes(ws.drop_last()) + active_count(ws.last().panes) }
}

/// What the first `m` windows give, with all their panes, of kind `k`.
pub open spec fn windows_formula(ws: Seq<WindowView>, k: CommandKind) -> nat {
    match k {
        CommandKind::Session => if ws.len() > 0 { 1 } else { 0 },
        CommandKind::Window => if ws.len() > 0 { (ws.len() - 1) as nat } else { 0 },
        CommandKind::Split => total_splits(ws),
        CommandKind::Layout => layout_count(ws),
        CommandKind::SelectPane => active_panes(ws),
        _ => 0,
    }
}

proof fn lemma_pane_sum(sv: SessionView, i: int, n: nat, k: CommandKind)
    requires
        0 <= i < sv.windows.len(),
        n <= sv.windows[i].panes.len(),
    ensures
        sum_formula(sv, Seq::new(n, |j: int| NodePos::Pane(i, j)), k)
            == if k == CommandKind::SelectPane { active_count(sv.windows[i].panes.take(n as int)) } else { 0 },
    decreases n,
{
    let ps = Seq::new(n, |j: int| NodePos::Pane(i, j));
    if n == 0 {
        assert(sv.windows[i].panes.take(0) =~= Seq::<crate::tmux::pane::PaneView>::empty());
    } else {
        lemma_pane_sum(sv, i, (n - 1) as nat, k);
        assert(ps.drop_last() =~= Seq::new((n - 1) as nat, |j: int| NodePos::Pane(i, j)));
        assert(sv.windows[i].panes.take(n as int).drop_last() =~= sv.windows[i].panes.take(n - 1));
    }
}

proof fn lemma_windows_sum(s: Session, m: nat, k: CommandKind)
    requires
        m <= s.windows@.len(),
    ensures
        sum_formula(s.deep_view(), flat_nodes(s.windows@.take(m as int)), k)
            == windows_formula(s.deep_view().windows.take(m as int), k),
    decreases m,
{
    let sv = s.deep_view();
    let ws = s.windows@;
    if m == 0 {
        assert(ws.take(0) =~= Seq::<crate::tmux::window::Window>::empty());
        assert(sv.windows.take(0) =~= Seq::<WindowView>::empty());
    } else {
        lemma_windows_sum(s, (m - 1) as nat, k);
        let i = m - 1;
        assert(ws.take(m as int).drop_last() =~= ws.take(i));
        assert(ws.take(m as int).last() == ws[i]);
        let n = ws[i].panes@.len();
        assert(sv.windows[i] == ws[i].deep_view());
        assert(sv.windows[i].panes.len() == n);
        let block = window_block(i, n);
        assert(flat_nodes(ws.take(m as int)) == flat_nodes(ws.take(i)) + block);
        lemma_sum_concat(sv, flat_nodes(ws.take(i)), block, k);
        let panes = Seq::new(n, |j: int| NodePos::Pane(i, j));
        lemma_sum_concat(sv, seq![NodePos::Window(i)], panes, k);
        assert(seq![NodePos::Window(i)].drop_last() =~= Seq::<NodePos>::empty());
        lemma_pane_sum(sv, i, n, k);
        assert(sv.windows[i].panes.take(n as int) =~= sv.windows[i].panes);
        let pre = sv.windows.take(i);
        let cur = sv.windows.take(m as int);
        assert(cur.drop_last() =~= pre);
        assert(cur.last() == sv.windows[i]);
        assert(seq![NodePos::Window(i)].last() == NodePos::Window(i));
        assert(sum_formula(sv, Seq::<NodePos>::empty(), k) == 0);
        assert(sum_formula(sv, seq![NodePos::Window(i)], k) == node_formula(sv, NodePos::Window(i), k));
        assert(seq![NodePos::Window(i)] + panes =~= block);
        assert(total_splits(cur) == total_splits(pre) + splits_for(sv.windows[i].panes.len()));
        assert(layout_count(cur) == layout_count(pre) + if sv.windows[i].layout is Some { 1nat } else { 0nat });
        assert(active_panes(cur) == active_panes(pre) + active_count(sv.windows[i].panes));
    }
}


/// How many `pre` commands the session runs.
pub open spec fn pre_len(sv: SessionView) -> nat {
    match sv.pre {
        Some(p) => p.len(),
        None => 0,
    }
}

/// A plan that succeeds opens the session once (when there is a window),
/// opens every further window once, splits each window once for each pane
/// beyond its first, sets each given layout once, focuses one window, and one
/// pane besides every active pane, runs every `pre` command once, and attaches
/// once exactly when the session is not to stay detached.
pub proof fn lemma_plan_counts(s: Session)
    requires
        plan_spec(s) is Ok,
    ensures
        count_kind(plan_spec(s)->Ok_0, CommandKind::Session) == if s.deep_view().windows.len() > 0 { 1nat } else { 0nat },
        count_kind(plan_spec(s)->Ok_0, CommandKind::Window)
            == if s.deep_view().windows.len() > 0 { (s.deep_view().windows.len() - 1) as nat } else { 0nat },
        count_kind(plan_spec(s)->Ok_0, CommandKind::Split) == total_splits(s.deep_view().windows),
        count_kind(plan_spec(s)->Ok_0, CommandKind::Layout) == layout_count(s.deep_view().windows),
        count_kind(plan_spec(s)->Ok_0, CommandKind::SelectWindow) == 1,
        count_kind(plan_spec(s)->Ok_0, CommandKind::SelectPane) == 1 + active_panes(s.deep_view().windows),
        count_kind(plan_spec(s)->Ok_0, CommandKind::Attach) == if !stays_detached(s.deep_view()) { 1nat } else { 0nat },
        count_kind(plan_spec(s)->Ok_0, CommandKind::Pre) == pre_len(s.deep_view()),
{
    lemma_plan_count(s, CommandKind::Session);
    lemma_plan_count(s, CommandKind::Window);
    lemma_plan_count(s, CommandKind::Split);
    lemma_plan_count(s, CommandKind::Layout);
    lemma_plan_count(s, CommandKind::SelectWindow);
    lemma_plan_count(s, CommandKind::SelectPane);
    lemma_plan_count(s, CommandKind::Attach);
    lemma_plan_count(s, CommandKind::Pre);
}

proof fn lemma_plan_count(s: Session, k: CommandKind)
    requires
        plan_spec(s) is Ok,
        counted(k),
    ensures
        count_kind(plan_spec(s)->Ok_0, k) == windows_formula(s.deep_view().windows, k)
            + (if k == CommandKind::Pre { pre_len(s.deep_view()) } else { 0 })
            + (if k == CommandKind::SelectWindow || k == CommandKind::SelectPane { 1nat } else { 0nat })
            + (if k == CommandKind::Attach && !stays_detached(s.deep_view()) { 1nat } else { 0nat }),
{
    let sv = s.deep_view();
    let nodes = flat_nodes(s.windows@);
    let n = nodes.len();
    let body = walk_cmds(s, n)->Ok_0;
    let sel = selection_cmds(sv, active_target(s, n))->Ok_0;
    let att = attach_cmds(sv)->Ok_0;
    let pre = pre_cmds(sv.pre);
    assert(plan_spec(s)->Ok_0 == pre + body + sel + att);
    lemma_walk_count(s, n, k);
    assert(nodes.take(n as int) =~= nodes);
    lemma_windows_sum(s, s.windows@.len(), k);
    assert(s.windows@.take(s.windows@.len() as int) =~= s.windows@);
    assert(sv.windows.take(sv.windows.len() as int) =~= sv.windows);
    lemma_count_concat(pre + body + sel, att, k);
    lemma_count_concat(pre + body, sel, k);
    lemma_count_concat(pre, body, k);
    lemma_count_uniform(pre, CommandKind::Pre, k);
    assert(pre.len() == pre_len(sv));
    assert(sel.len() == 2);
    assert(kind_of(sel[0]) == CommandKind::SelectWindow);
    assert(kind_of(sel[1]) == CommandKind::SelectPane);
    assert(count_kind(Seq::<CommandView>::empty(), k) == 0);
    assert(sel.drop_last().drop_last() =~= Seq::<CommandView>::empty());
    assert(sel.drop_last().last() == sel[0]);
    assert(count_kind(sel.drop_last(), k) == (if kind_of(sel[0]) == k { 1nat } else { 0nat }));
    assert(count_kind(sel, k) == (if kind_of(sel[0]) == k { 1nat } else { 0nat }) + (if kind_of(sel[1]) == k { 1nat } else { 0nat }));
    if !stays_detached(sv) {
        assert(att.len() == 1);
        assert(kind_of(att[0]) == CommandKind::Attach);
        assert(att.drop_last() =~= Seq::<CommandView>::empty());
        assert(count_kind(att, k) == (if k == CommandKind::Attach { 1nat } else { 0nat }));
    } else {
        assert(att =~= Seq::<CommandView>::empty());
        assert(count_kind(att, k) == 0);
    }
}

/// A plan that succeeds runs the `pre` commands first, in order, and ends with
/// the attach unless the session is to stay detached, when it ends with the
/// focus on a pane.
pub proof fn lemma_plan_order(s: Session)
    requires
        plan_spec(s) is Ok,
    ensures
        plan_spec(s)->Ok_0.take(pre_len(s.deep_view()) as int) == pre_cmds(s.deep_view().pre),
        !stays_detached(s.deep_view()) ==> plan_spec(s)->Ok_0.last() is Attach,
        stays_detached(s.deep_view()) ==> plan_spec(s)->Ok_0.last() is SelectPane,
{
    let sv = s.deep_view();
    let n = flat_nodes(s.windows@).len();
    let body = walk_cmds(s, n)->Ok_0;
    let sel = selection_cmds(sv, active_target(s, n))->Ok_0;
    let att = attach_cmds(sv)->Ok_0;
    let pre = pre_cmds(sv.pre);
    let cmds = pre + body + sel + att;
    assert(plan_spec(s)->Ok_0 == cmds);
    assert(pre.len() == pre_len(sv));
    assert(cmds.take(pre.len() as int) =~= pre);
    if stays_detached(sv) {
        assert(att =~= Seq::<CommandView>::empty());
        assert(cmds.last() == sel[1]);
    }
}


/// Every place of the walk names a window of the session, or a pane of one.
pub open spec fn valid_pos(ws: Seq<crate::tmux::window::Window>, pos: NodePos) -> bool {
    match pos {
        NodePos::Window(i) => 0 <= i < ws.len(),
        NodePos::Pane(i, j) => 0 <= i < ws.len() && 0 <= j < ws[i].panes@.len(),
    }
}

proof fn lemma_flat_nodes_valid(ws: Seq<crate::tmux::window::Window>)
    ensures
        forall|k: int| 0 <= k < flat_nodes(ws).len() ==> valid_pos(ws, #[trigger] flat_nodes(ws)[k]),
    decreases ws.len(),
{
    if ws.len() > 0 {
        let pre = ws.drop_last();
        lemma_flat_nodes_valid(pre);
        let i = ws.len() - 1;
        let block = window_block(i, ws.last().panes@.len());
        assert forall|k: int| 0 <= k < flat_nodes(ws).len() implies valid_pos(ws, #[trigger] flat_nodes(ws)[k]) by {
            if k < flat_nodes(pre).len() {
                assert(flat_nodes(ws)[k] == flat_nodes(pre)[k]);
                assert(valid_pos(pre, flat_nodes(pre)[k]));
                match flat_nodes(pre)[k] {
                    NodePos::Window(a) => {},
                    NodePos::Pane(a, b) => {
                        assert(ws[a] == pre[a]);
                    },
                }
            } else {
                assert(flat_nodes(ws)[k] == block[k - flat_nodes(pre).len()]);
            }
        }
    }
}

/// Every window and pane of the session has a target, and the session a name.
pub open spec fn fully_targeted(sv: SessionView) -> bool {
    &&& sv.name is Some
    &&& forall|i: int| 0 <= i < sv.windows.len() ==> {
        &&& (#[trigger] sv.windows[i]).target matches Some(t)
        &&& t.window is Some
        &&& t.pane is None
        &&& forall|j: int| 0 <= j < sv.windows[i].panes.len() ==> (#[trigger] sv.windows[i].panes[j]).target is Some
    }
    &&& sv.target matches Some(t) && t.window is None && t.pane is None
}

proof fn lemma_walk_ok(s: Session, k: nat)
    requires
        fully_targeted(s.deep_view()),
        k <= flat_nodes(s.windows@).len(),
    ensures
        walk_cmds(s, k) is Ok,
    decreases k,
{
    if k > 0 {
        lemma_walk_ok(s, (k - 1) as nat);
        lemma_flat_nodes_valid(s.windows@);
        let pos = flat_nodes(s.windows@)[k - 1];
        assert(valid_pos(s.windows@, pos));
        let sv = s.deep_view();
        match pos {
            NodePos::Window(i) => {
                assert(sv.windows[i].target is Some);
            },
            NodePos::Pane(i, j) => {
                assert(sv.windows[i] == s.windows@[i].deep_view());
                assert(sv.windows[i].panes[j].target is Some);
            },
        }
    }
}

proof fn lemma_active_target_is_window(s: Session, k: nat)
    requires
        k <= flat_nodes(s.windows@).len(),
    ensures
        active_target(s, k) matches Some(t) ==> exists|i: int| 0 <= i < s.deep_view().windows.len()
            && s.deep_view().windows[i].target == Some(t),
    decreases k,
{
    if k > 0 {
        lemma_active_target_is_window(s, (k - 1) as nat);
        lemma_flat_nodes_valid(s.windows@);
        let pos = flat_nodes(s.windows@)[k - 1];
        assert(valid_pos(s.windows@, pos));
    }
}

/// A session that has all its targets and its name always plans.
pub proof fn lemma_targeted_session_plans(s: Session)
    requires
        fully_targeted(s.deep_view()),
    ensures
        plan_spec(s) is Ok,
{
    let sv = s.deep_view();
    let n = flat_nodes(s.windows@).len();
    lemma_walk_ok(s, n);
    lemma_active_target_is_window(s, n);
    match active_target(s, n) {
        Some(t) => {
            let i = choose|i: int| 0 <= i < sv.windows.len() && sv.windows[i].target == Some(t);
            assert(sv.windows[i].target is Some);
        },
        None => {},
    }
}

/// What enrichment gives is a session with all its targets and its name, so
/// planning an enriched session never fails.
pub proof fn lemma_enriched_session_plans(s: Session, orig: SessionView, name: Seq<char>, daemonize: bool,
    config: Config, home: Option<Seq<char>>)
    requires
        s.deep_view() == enriched_session(orig, name, daemonize, config, home),
    ensures
        plan_spec(s) is Ok,
{
    let sv = s.deep_view();
    assert(fully_targeted(sv));
    lemma_targeted_session_plans(s);
}


proof fn lemma_flat_prefix(ws: Seq<crate::tmux::window::Window>, m: int)
    requires
        0 <= m <= ws.len(),
    ensures
        flat_nodes(ws.take(m)).len() <= flat_nodes(ws).len(),
        m < ws.len() ==> flat_nodes(ws.take(m)).len() < flat_nodes(ws).len(),
        forall|k: int| 0 <= k < flat_nodes(ws.take(m)).len() ==> flat_nodes(ws)[k] == #[trigger] flat_nodes(ws.take(m))[k],
        m < ws.len() ==> flat_nodes(ws)[flat_nodes(ws.take(m)).len() as int] == NodePos::Window(m),
    decreases ws.len(),
{
    if m < ws.len() {
        let pre = ws.drop_last();
        assert(flat_nodes(ws) == flat_nodes(pre) + window_block(ws.len() - 1, ws.last().panes@.len()));
        let block = window_block(ws.len() - 1, ws.last().panes@.len());
        assert(block[0] == NodePos::Window(ws.len() - 1));
        if m == ws.len() - 1 {
            assert(ws.take(m) =~= pre);
            assert(flat_nodes(ws)[flat_nodes(pre).len() as int] == block[0]);
        } else {
            lemma_flat_prefix(pre, m);
            assert(pre.take(m) =~= ws.take(m));
        }
    } else {
        assert(ws.take(m) =~= ws);
    }
}

proof fn lemma_active_target_first(s: Session, m: int, k: nat)
    requires
        0 <= m < s.windows@.len(),
        s.deep_view().windows[m].active,
        s.deep_view().windows[m].target is Some,
        forall|i: int| 0 <= i < m ==> !(#[trigger] s.deep_view().windows[i]).active,
        k <= flat_nodes(s.windows@).len(),
    ensures
        k <= flat_nodes(s.windows@.take(m)).len() ==> active_target(s, k) is None,
        k > flat_nodes(s.windows@.take(m)).len() ==> active_target(s, k) == s.deep_view().windows[m].target,
    decreases k,
{
    let ws = s.windows@;
    lemma_flat_prefix(ws, m);
    lemma_flat_nodes_valid(ws.take(m));
    if k > 0 {
        lemma_active_target_first(s, m, (k - 1) as nat);
        let pos = flat_nodes(ws)[k - 1];
        if k <= flat_nodes(ws.take(m)).len() {
            assert(pos == flat_nodes(ws.take(m))[k - 1]);
            assert(valid_pos(ws.take(m), pos));
        } else if k - 1 == flat_nodes(ws.take(m)).len() {
            assert(pos == NodePos::Window(m));
        }
    }
}

proof fn lemma_walk_nodes_ok(s: Session, k: nat)
    requires
        k <= flat_nodes(s.windows@).len(),
        walk_cmds(s, k) is Ok,
    ensures
        forall|j: int| 0 <= j < k ==> node_cmds(s.deep_view(), #[trigger] flat_nodes(s.windows@)[j]) is Ok,
    decreases k,
{
    if k > 0 {
        lemma_walk_nodes_ok(s, (k - 1) as nat);
    }
}

proof fn lemma_active_target_none(s: Session, k: nat)
    requires
        forall|i: int| 0 <= i < s.deep_view().windows.len() ==> !(#[trigger] s.deep_view().windows[i]).active,
        k <= flat_nodes(s.windows@).len(),
    ensures
        active_target(s, k) is None,
    decreases k,
{
    if k > 0 {
        lemma_active_target_none(s, (k - 1) as nat);
        lemma_flat_nodes_valid(s.windows@);
        assert(valid_pos(s.windows@, flat_nodes(s.windows@)[k - 1]));
    }
}

/// The focus a plan ends with: the first active window and its first pane,
/// numbered from the pane base index; with no active window, the first window
/// of the session (numbered from the base index) and its first pane.
pub open spec fn focus(sv: SessionView) -> Option<(crate::tmux::target::TargetView, crate::tmux::target::TargetView)> {
    let wi: usize = match sv.config { Some(c) => c.base_index, None => 0 };
    let pi: usize = match sv.config { Some(c) => c.pane_base_index, None => 0 };
    if exists|i: int| 0 <= i < sv.windows.len() && (#[trigger] sv.windows[i]).active {
        let m = choose|i: int| 0 <= i < sv.windows.len() && (#[trigger] sv.windows[i]).active
            && forall|j: int| 0 <= j < i ==> !(#[trigger] sv.windows[j]).active;
        match sv.windows[m].target {
            Some(t) => match extend_view(t, pi) {
                Ok(p) => Some((t, p)),
                Err(_) => None,
            },
            None => None,
        }
    } else {
        match sv.target {
            Some(st) => match extend_view(st, wi) {
                Ok(w) => match extend_view(w, pi) {
                    Ok(p) => Some((w, p)),
                    Err(_) => None,
                },
                Err(_) => None,
            },
            None => None,
        }
    }
}

/// A plan that succeeds focuses, right after building the windows and panes,
/// the window and the pane that `focus` gives.
pub proof fn lemma_plan_focus(s: Session)
    requires
        plan_spec(s) is Ok,
    ensures
        focus(s.deep_view()) matches Some((w, p)) && {
            let cmds = plan_spec(s)->Ok_0;
            let at = cmds.len() - (if !stays_detached(s.deep_view()) { 1int } else { 0int });
            &&& cmds[at - 2] == CommandView::SelectWindow { target: w }
            &&& cmds[at - 1] == CommandView::SelectPane { target: p }
        },
{
    let sv = s.deep_view();
    let n = flat_nodes(s.windows@).len();
    let body = walk_cmds(s, n)->Ok_0;
    let sel = selection_cmds(sv, active_target(s, n))->Ok_0;
    let att = attach_cmds(sv)->Ok_0;
    let pre = pre_cmds(sv.pre);
    let cmds = pre + body + sel + att;
    assert(plan_spec(s)->Ok_0 == cmds);
    if exists|i: int| 0 <= i < sv.windows.len() && (#[trigger] sv.windows[i]).active {
        let i0 = choose|i: int| 0 <= i < sv.windows.len() && (#[trigger] sv.windows[i]).active;
        let m = least_active(sv, i0);
        lemma_flat_prefix(s.windows@, m);
        lemma_walk_nodes_ok(s, n);
        let idx = flat_nodes(s.windows@.take(m)).len() as int;
        assert(node_cmds(sv, flat_nodes(s.windows@)[idx]) is Ok);
        assert(sv.windows[m].target is Some);
        lemma_active_target_first(s, m, n);
        let m2 = choose|i: int| 0 <= i < sv.windows.len() && (#[trigger] sv.windows[i]).active
            && forall|j: int| 0 <= j < i ==> !(#[trigger] sv.windows[j]).active;
        assert(m2 == m) by {
            if m2 < m {
                assert(sv.windows[m2].active);
            } else if m < m2 {
                assert(!sv.windows[m].active);
            }
        }
    } else {
        lemma_active_target_none(s, n);
    }
    if !stays_detached(sv) {
        assert(att.len() == 1);
    } else {
        assert(att.len() == 0);
    }
}

/// The first active window, at or before `i`.
proof fn least_active(sv: SessionView, i: int) -> (m: int)
    requires
        0 <= i < sv.windows.len(),
        sv.windows[i].active,
    ensures
        0 <= m <= i,
        sv.windows[m].active,
        forall|j: int| 0 <= j < m ==> !(#[trigger] sv.windows[j]).active,
    decreases i,
{
    if exists|j: int| 0 <= j < i && (#[trigger] sv.windows[j]).active {
        let j = choose|j: int| 0 <= j < i && (#[trigger] sv.windows[j]).active;
        least_active(sv, j)
    } else {
        i
    }
}


/// When the walk over the first `n` places succeeds, each of those places
/// succeeds too, and every command it gives stands in the walk.
proof fn lemma_walk_holds_node(s: Session, n: nat, k: int, x: CommandView)
    requires
        n <= flat_nodes(s.windows@).len(),
        0 <= k < n,
        walk_cmds(s, n) is Ok,
    ensures
        node_cmds(s.deep_view(), flat_nodes(s.windows@)[k]) is Ok,
        node_cmds(s.deep_view(), flat_nodes(s.windows@)[k])->Ok_0.contains(x) ==> walk_cmds(s, n)->Ok_0.contains(x),
    decreases n,
{
    let sv = s.deep_view();
    let nodes = flat_nodes(s.windows@);
    let prev = walk_cmds(s, (n - 1) as nat);
    assert(prev is Ok);
    let c = node_cmds(sv, nodes[n - 1]);
    assert(c is Ok);
    let whole = walk_cmds(s, n)->Ok_0;
    assert(whole == prev->Ok_0 + c->Ok_0);
    if k == n - 1 {
        if c->Ok_0.contains(x) {
            let j = choose|j: int| 0 <= j < c->Ok_0.len() && c->Ok_0[j] == x;
            assert(whole[prev->Ok_0.len() + j] == x);
        }
    } else {
        lemma_walk_holds_node(s, (n - 1) as nat, k, x);
        if node_cmds(sv, nodes[k])->Ok_0.contains(x) {
            let j = choose|j: int| 0 <= j < prev->Ok_0.len() && prev->Ok_0[j] == x;
            assert(whole[j] == x);
        }
    }
}

/// When a plan succeeds, each place of the walk succeeds, and every command it
/// gives stands in the plan.
proof fn lemma_plan_holds_node(s: Session, k: int, x: CommandView)
    requires
        plan_spec(s) is Ok,
        0 <= k < flat_nodes(s.windows@).len(),
    ensures
        node_cmds(s.deep_view(), flat_nodes(s.windows@)[k]) is Ok,
        node_cmds(s.deep_view(), flat_nodes(s.windows@)[k])->Ok_0.contains(x) ==> plan_spec(s)->Ok_0.contains(x),
{
    let sv = s.deep_view();
    let n = flat_nodes(s.windows@).len();
    let body = walk_cmds(s, n)->Ok_0;
    let sel = selection_cmds(sv, active_target(s, n))->Ok_0;
    let att = attach_cmds(sv)->Ok_0;
    let pre = pre_cmds(sv.pre);
    assert(walk_cmds(s, n) is Ok);
    assert(plan_spec(s)->Ok_0 == pre + body + sel + att);
    lemma_walk_holds_node(s, n, k, x);
    if node_cmds(sv, flat_nodes(s.windows@)[k])->Ok_0.contains(x) {
        let j = choose|j: int| 0 <= j < body.len() && body[j] == x;
        assert((pre + body + sel + att)[pre.len() + j] == x);
    }
}

/// The place of window `i` in the walk.
proof fn lemma_window_place(s: Session, i: int) -> (k: int)
    requires
        0 <= i < s.windows@.len(),
    ensures
        0 <= k < flat_nodes(s.windows@).len(),
        flat_nodes(s.windows@)[k] == NodePos::Window(i),
{
    lemma_flat_prefix(s.windows@, i);
    flat_nodes(s.windows@.take(i)).len() as int
}

/// The place of pane `j` of window `i` in the walk.
proof fn lemma_pane_place(s: Session, i: int, j: int) -> (k: int)
    requires
        0 <= i < s.windows@.len(),
        0 <= j < s.windows@[i].panes@.len(),
    ensures
        0 <= k < flat_nodes(s.windows@).len(),
        flat_nodes(s.windows@)[k] == NodePos::Pane(i, j),
{
    let ws = s.windows@;
    lemma_flat_prefix(ws, i + 1);
    let upto = ws.take(i + 1);
    assert(upto.drop_last() =~= ws.take(i));
    assert(upto.last() == ws[i]);
    let block = window_block(i, ws[i].panes@.len());
    assert(flat_nodes(upto) == flat_nodes(ws.take(i)) + block);
    let k = flat_nodes(ws.take(i)).len() + 1 + j;
    assert(block[1 + j] == NodePos::Pane(i, j));
    assert(flat_nodes(upto)[k] == NodePos::Pane(i, j));
    k
}

/// A plan that succeeds starts every command the configuration gives: each
/// window's command is sent to that window, and each pane's command to that
/// pane.
pub proof fn lemma_plan_runs_every_command(s: Session)
    requires
        plan_spec(s) is Ok,
    ensures
        forall|i: int| 0 <= i < s.deep_view().windows.len() && (#[trigger] s.deep_view().windows[i]).command is Some ==> {
            &&& s.deep_view().windows[i].target is Some
            &&& plan_spec(s)->Ok_0.contains(CommandView::SendKeys {
                    target: s.deep_view().windows[i].target->Some_0,
                    command: s.deep_view().windows[i].command->Some_0,
                })
        },
        forall|i: int, j: int| 0 <= i < s.deep_view().windows.len() && 0 <= j < s.deep_view().windows[i].panes.len()
            && (#[trigger] s.deep_view().windows[i].panes[j]).command is Some ==> {
            &&& s.deep_view().windows[i].panes[j].target is Some
            &&& plan_spec(s)->Ok_0.contains(CommandView::SendKeys {
                    target: s.deep_view().windows[i].panes[j].target->Some_0,
                    command: s.deep_view().windows[i].panes[j].command->Some_0,
                })
        },
{
    let sv = s.deep_view();
    assert forall|i: int| 0 <= i < sv.windows.len() && (#[trigger] sv.windows[i]).command is Some implies {
        &&& sv.windows[i].target is Some
        &&& plan_spec(s)->Ok_0.contains(CommandView::SendKeys { target: sv.windows[i].target->Some_0, command: sv.windows[i].command->Some_0 })
    } by {
        let w = sv.windows[i];
        let k = lemma_window_place(s, i);
        let x = CommandView::SendKeys { target: w.target->Some_0, command: w.command->Some_0 };
        lemma_plan_holds_node(s, k, x);
        let cmds = window_cmds(sv, w, i == 0)->Ok_0;
        assert(cmds[cmds.len() - 1] == x);
    }
    assert forall|i: int, j: int| 0 <= i < sv.windows.len() && 0 <= j < sv.windows[i].panes.len()
        && (#[trigger] sv.windows[i].panes[j]).command is Some implies {
        &&& sv.windows[i].panes[j].target is Some
        &&& plan_spec(s)->Ok_0.contains(CommandView::SendKeys {
                target: sv.windows[i].panes[j].target->Some_0,
                command: sv.windows[i].panes[j].command->Some_0,
            })
    } by {
        let p = sv.windows[i].panes[j];
        assert(sv.windows[i] == s.windows@[i].deep_view());
        let k = lemma_pane_place(s, i, j);
        let x = CommandView::SendKeys { target: p.target->Some_0, command: p.command->Some_0 };
        lemma_plan_holds_node(s, k, x);
        let a = pre_window_keys(p.target->Some_0, sv.pre_window);
        let b = keys_opt(p.target->Some_0, p.command);
        let c: Seq<CommandView> = if p.active { seq![CommandView::SelectPane { target: p.target->Some_0 }] } else { Seq::empty() };
        let cmds = pane_cmds(sv, p)->Ok_0;
        assert(cmds == a + b + c);
        assert(cmds[a.len() as int] == x);
    }
}

/// A plan that succeeds opens every window of the configuration: the first as
/// the session itself, named after it and opening in the session's root; each
/// further one as a new window with its own name and target, opening in its
/// own path.
pub proof fn lemma_plan_opens_every_window(s: Session)
    requires
        plan_spec(s) is Ok,
    ensures
        s.deep_view().windows.len() > 0 ==> {
            &&& s.deep_view().name is Some
            &&& plan_spec(s)->Ok_0.contains(CommandView::Session {
                    session: s.deep_view().name->Some_0,
                    name: s.deep_view().name->Some_0,
                    window_name: s.deep_view().windows[0].name,
                    root: s.deep_view().root,
                })
        },
        forall|i: int| 1 <= i < s.deep_view().windows.len() ==> {
            &&& (#[trigger] s.deep_view().windows[i]).target is Some
            &&& plan_spec(s)->Ok_0.contains(CommandView::Window {
                    name: s.deep_view().windows[i].name,
                    target: s.deep_view().windows[i].target->Some_0,
                    path: s.deep_view().windows[i].path,
                })
        },
{
    let sv = s.deep_view();
    if sv.windows.len() > 0 {
        let w = sv.windows[0];
        let k = lemma_window_place(s, 0);
        let x = CommandView::Session { session: sv.name->Some_0, name: sv.name->Some_0, window_name: w.name, root: sv.root };
        lemma_plan_holds_node(s, k, x);
        let cmds = window_cmds(sv, w, true)->Ok_0;
        assert(cmds[0] == x);
    }
    assert forall|i: int| 1 <= i < sv.windows.len() implies {
        &&& (#[trigger] sv.windows[i]).target is Some
        &&& plan_spec(s)->Ok_0.contains(CommandView::Window { name: sv.windows[i].name, target: sv.windows[i].target->Some_0, path: sv.windows[i].path })
    } by {
        let w = sv.windows[i];
        let k = lemma_window_place(s, i);
        let x = CommandView::Window { name: w.name, target: w.target->Some_0, path: w.path };
        lemma_plan_holds_node(s, k, x);
        let cmds = window_cmds(sv, w, false)->Ok_0;
        assert(cmds[0] == x);
    }
}

/// Appending components keeps what was there in front.
proof fn lemma_push_components_prefix(acc: Seq<char>, seg: Seq<char>, rest: Seq<char>)
    ensures
        push_components(acc, seg, rest).len() >= acc.len(),
        push_components(acc, seg, rest).take(acc.len() as int) == acc,
    decreases rest.len(),
{
    let f = flush_segment(acc, seg);
    assert(f.len() >= acc.len() && f.take(acc.len() as int) =~= acc) by {
        if !(seg.len() == 0 || seg == seq!['.']) {
            assert(push_component(acc, seg).take(acc.len() as int) =~= acc);
        } else {
            assert(acc.take(acc.len() as int) =~= acc);
        }
    }
    if rest.len() > 0 {
        if rest[0] == '/' {
            lemma_push_components_prefix(f, Seq::empty(), rest.drop_first());
            let r = push_components(f, Seq::empty(), rest.drop_first());
            assert(r.take(acc.len() as int) =~= r.take(f.len() as int).take(acc.len() as int));
        } else {
            lemma_push_components_prefix(acc, seg.push(rest[0]), rest.drop_first());
        }
    }
}

/// Against a home directory that is itself free of `~`, an expanded path
/// never begins with `~`.
proof fn lemma_expanded_plain(p: Seq<char>, h: Seq<char>)
    requires
        h.len() > 0,
        !starts_with_tilde(h),
    ensures
        expand_path_spec(p, Some(h)) matches Some(e) && !starts_with_tilde(e),
{
    if starts_with_tilde(p) {
        lemma_push_components_prefix(h, Seq::empty(), p.skip(1));
        let e = push_components(h, Seq::empty(), p.skip(1));
        assert(e[0] == h[0]);
        if h.len() > 1 {
            assert(e[1] == h[1]);
        }
    }
}

/// Enrichment expands every configured path against the home directory: the
/// session's root, each window's path and each pane's path. A window or a pane
/// without a path of its own opens in the session's expanded root. With a
/// known home directory that does not itself begin with `~`, no path of the
/// enriched session begins with `~`.
pub proof fn lemma_enrichment_expands_paths(s: SessionView, name: Seq<char>, daemonize: bool, config: Config,
    home: Option<Seq<char>>)
    ensures
        enriched_session(s, name, daemonize, config, home).root
            == (match s.root { Some(r) => expand_path_spec(r, home), None => None }),
        enriched_session(s, name, daemonize, config, home).windows.len() == s.windows.len(),
        forall|i: int| 0 <= i < s.windows.len() ==> {
            &&& (#[trigger] enriched_session(s, name, daemonize, config, home).windows[i]).path
                    == (match s.windows[i].path {
                        Some(p) => expand_path_spec(p, home),
                        None => enriched_session(s, name, daemonize, config, home).root,
                    })
            &&& enriched_session(s, name, daemonize, config, home).windows[i].panes.len() == s.windows[i].panes.len()
            &&& forall|j: int| 0 <= j < s.windows[i].panes.len() ==>
                    (#[trigger] enriched_session(s, name, daemonize, config, home).windows[i].panes[j]).path
                    == (match s.windows[i].panes[j].path {
                        Some(p) => expand_path_spec(p, home),
                        None => enriched_session(s, name, daemonize, config, home).root,
                    })
        },
        home matches Some(h) && h.len() > 0 && !starts_with_tilde(h) ==> {
            &&& plain_path(enriched_session(s, name, daemonize, config, home).root)
            &&& forall|i: int| 0 <= i < s.windows.len() ==>
                    plain_path((#[trigger] enriched_session(s, name, daemonize, config, home).windows[i]).path)
            &&& forall|i: int, j: int| 0 <= i < s.windows.len() && 0 <= j < s.windows[i].panes.len() ==>
                    plain_path((#[trigger] enriched_session(s, name, daemonize, config, home).windows[i].panes[j]).path)
        },
{
    let e = enriched_session(s, name, daemonize, config, home);
    if home matches Some(h) && h.len() > 0 && !starts_with_tilde(h) {
        let h = home->Some_0;
        if s.root is Some {
            lemma_expanded_plain(s.root->Some_0, h);
        }
        assert forall|i: int| 0 <= i < s.windows.len() implies
            plain_path((#[trigger] e.windows[i]).path) by {
            if s.windows[i].path is Some {
                lemma_expanded_plain(s.windows[i].path->Some_0, h);
            }
        }
        assert forall|i: int, j: int| 0 <= i < s.windows.len() && 0 <= j < s.windows[i].panes.len() implies
            plain_path((#[trigger] e.windows[i].panes[j]).path) by {
            if s.windows[i].panes[j].path is Some {
                lemma_expanded_plain(s.windows[i].panes[j].path->Some_0, h);
            }
        }
    }
}

} // verus!
