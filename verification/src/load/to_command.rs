//! Planning: the ordered commands that build a session in tmux.

use vstd::prelude::*;
use crate::load::command::{Attach, CommandView, Commands, Layout, SelectPane, SelectWindow, SendKeys, Session, Split, Window};
use crate::load::error::InterpreterError;
use crate::tmux::pane::{Pane as ConfigPane, PaneView};
use crate::tmux::session::{NodePos, NodeRef, Session as ConfigSession, SessionView, flat_nodes};
use crate::tmux::target::{CommonError, Target, TargetView, clone_opt_target, combined_of};
use crate::tmux::window::{Window as ConfigWindow, WindowView};

verus! {

/// What planning a window or a pane knows of the rest of the session.
pub struct PlanContext<'a> {
    pub first: bool,
    pub session: &'a ConfigSession,
}

/// One `send-keys` per `pre_window` command, to the given target.
pub open spec fn pre_window_keys(t: TargetView, pre_window: Option<Seq<Seq<char>>>) -> Seq<CommandView> {
    match pre_window {
        Some(cmds) => Seq::new(cmds.len(), |k: int| CommandView::SendKeys { target: t, command: cmds[k] }),
        None => Seq::empty(),
    }
}

/// One fewer than `n`, and never below zero.
pub open spec fn splits_for(n: nat) -> nat {
    if n > 0 { (n - 1) as nat } else { 0 }
}

/// A `send-keys` of the given command, if there is one.
pub open spec fn keys_opt(t: TargetView, command: Option<Seq<char>>) -> Seq<CommandView> {
    match command {
        Some(c) => seq![CommandView::SendKeys { target: t, command: c }],
        None => Seq::empty(),
    }
}

/// The commands that realise one window: the session itself for the first
/// window, a new window for the others; then a `cd` to the window's path,
/// the `pre_window` commands, one split per pane beyond the first, the layout,
/// and the window's command.
pub open spec fn window_cmds(sv: SessionView, w: WindowView, first: bool) -> Result<Seq<CommandView>, InterpreterError> {
    match sv.name {
        None => Err(InterpreterError::SessionNameRequired),
        Some(name) => match w.target {
            None => Err(InterpreterError::WindowTargetRequired),
            Some(t) => Ok(
                seq![opening_cmd(sv, name, w, t, first)]
                + cd_opt(t, w.path)
                + pre_window_keys(t, sv.pre_window)
                + splits(t, w.path, splits_for(w.panes.len()))
                + layout_opt(t, w.layout)
                + keys_opt(t, w.command)
            ),
        },
    }
}

/// The commands that realise one pane: the `pre_window` commands, the pane's
/// command, and a focus on the pane when it is the active one.
pub open spec fn pane_cmds(sv: SessionView, p: PaneView) -> Result<Seq<CommandView>, InterpreterError> {
    match p.target {
        None => Err(InterpreterError::PaneTargetRequired),
        Some(t) => Ok(
            pre_window_keys(t, sv.pre_window)
            + keys_opt(t, p.command)
            + (if p.active { seq![CommandView::SelectPane { target: t }] } else { Seq::empty() })
        ),
    }
}

/// The commands for one place of the walk.
pub open spec fn node_cmds(sv: SessionView, pos: NodePos) -> Result<Seq<CommandView>, InterpreterError> {
    match pos {
        NodePos::Window(i) => window_cmds(sv, sv.windows[i], i == 0),
        NodePos::Pane(i, j) => pane_cmds(sv, sv.windows[i].panes[j]),
    }
}

/// The commands for the first `k` places of the walk over the session, or the
/// first error met on the way.
pub open spec fn walk_cmds(s: ConfigSession, k: nat) -> Result<Seq<CommandView>, InterpreterError>
    decreases k,
{
    if k == 0 {
        Ok(Seq::empty())
    } else {
        match walk_cmds(s, (k - 1) as nat) {
            Err(e) => Err(e),
            Ok(prev) => match node_cmds(s.deep_view(), flat_nodes(s.windows@)[k - 1]) {
                Err(e) => Err(e),
                Ok(c) => Ok(prev + c),
            },
        }
    }
}

/// The target of the first active window among the first `k` places of the walk.
pub open spec fn active_target(s: ConfigSession, k: nat) -> Option<TargetView>
    decreases k,
{
    if k == 0 {
        None
    } else {
        match active_target(s, (k - 1) as nat) {
            Some(t) => Some(t),
            None => match flat_nodes(s.windows@)[k - 1] {
                NodePos::Window(i) => if s.deep_view().windows[i].active {
                    s.deep_view().windows[i].target
                } else {
                    None
                },
                NodePos::Pane(_, _) => None,
            },
        }
    }
}

/// What `Target::extend` gives for a target with these parts.
pub open spec fn extend_view(t: TargetView, v: usize) -> Result<TargetView, CommonError> {
    match (t.window, t.pane) {
        (Some(w), None) => Ok(TargetView {
            session: t.session,
            window: Some(w),
            pane: Some(v),
            combined: combined_of(t.session, Some(w), Some(v)),
        }),
        (None, None) => Ok(TargetView {
            session: t.session,
            window: Some(v),
            pane: None,
            combined: combined_of(t.session, Some(v), None),
        }),
        _ => Err(CommonError::Target),
    }
}

/// The focus commands: the first active window and its first pane, or else the
/// session's first window and its first pane, numbered as the config says.
pub open spec fn selection_cmds(sv: SessionView, active: Option<TargetView>) -> Result<Seq<CommandView>, InterpreterError> {
    let wi: usize = match sv.config { Some(c) => c.base_index, None => 0 };
    let pi: usize = match sv.config { Some(c) => c.pane_base_index, None => 0 };
    match active {
        Some(t) => match extend_view(t, pi) {
            Err(e) => Err(InterpreterError::Common(e)),
            Ok(p) => Ok(seq![CommandView::SelectWindow { target: t }, CommandView::SelectPane { target: p }]),
        },
        None => match sv.target {
            None => Err(InterpreterError::SessionTargetRequired),
            Some(st) => match extend_view(st, wi) {
                Err(e) => Err(InterpreterError::Common(e)),
                Ok(w) => match extend_view(w, pi) {
                    Err(e) => Err(InterpreterError::Common(e)),
                    Ok(p) => Ok(seq![CommandView::SelectWindow { target: w }, CommandView::SelectPane { target: p }]),
                },
            },
        },
    }
}

/// Whether the session is to stay detached: only when it is daemonized.
pub open spec fn stays_detached(sv: SessionView) -> bool {
    sv.daemonize == Some(true)
}

/// The attach command, unless the session is to stay detached.
pub open spec fn attach_cmds(sv: SessionView) -> Result<Seq<CommandView>, InterpreterError> {
    if stays_detached(sv) {
        Ok(Seq::empty())
    } else {
        match sv.target {
            Some(t) => Ok(seq![CommandView::Attach { target: t, root: sv.root }]),
            None => match sv.name {
                None => Err(InterpreterError::SessionTargetRequired),
                Some(n) => Ok(seq![CommandView::Attach {
                    target: TargetView { session: n, window: None, pane: None, combined: combined_of(n, None, None) },
                    root: sv.root,
                }]),
            },
        }
    }
}

/// The `pre` commands, in order.
pub open spec fn pre_cmds(pre: Option<Seq<Seq<char>>>) -> Seq<CommandView> {
    match pre {
        Some(cmds) => Seq::new(cmds.len(), |k: int| CommandView::Pre { command: cmds[k] }),
        None => Seq::empty(),
    }
}

/// The whole plan: the `pre` commands, every window and pane in walk order,
/// the focus, and the attach; or the first error met.
pub open spec fn plan_spec(s: ConfigSession) -> Result<Seq<CommandView>, InterpreterError> {
    let sv = s.deep_view();
    let n = flat_nodes(s.windows@).len();
    match walk_cmds(s, n) {
        Err(e) => Err(e),
        Ok(body) => match selection_cmds(sv, active_target(s, n)) {
            Err(e) => Err(e),
            Ok(sel) => match attach_cmds(sv) {
                Err(e) => Err(e),
                Ok(att) => Ok(pre_cmds(sv.pre) + body + sel + att),
            },
        },
    }
}

/// `Ok` results agree with the spec's `Ok`, errors with its error.
pub open spec fn matches_result(r: Result<Vec<Commands>, InterpreterError>, s: Result<Seq<CommandView>, InterpreterError>) -> bool {
    match (r, s) {
        (Ok(v), Ok(sv)) => v.deep_view() == sv,
        (Err(e), Err(f)) => e == f,
        _ => false,
    }
}

fn push_pre_window_keys(commands: &mut Vec<Commands>, target: &Target, pre_window: &Option<crate::tmux::pre::Pre>)
    ensures
        final(commands).deep_view() == old(commands).deep_view() + pre_window_keys(target.deep_view(), pre_window.deep_view()),
{
    match pre_window {
        Some(pre) => {
            let cmds = pre.iter();
            let ghost start = commands.deep_view();
            let mut k: usize = 0;
            while k < cmds.len()
                invariant
                    k <= cmds.len(),
                    cmds.deep_view() == pre.deep_view(),
                    commands.deep_view() == start + Seq::new(k as nat, |m: int| CommandView::SendKeys { target: target.deep_view(), command: cmds.deep_view()[m] }),
                decreases cmds.len() - k,
            {
                let ghost before = commands.deep_view();
                let c = cmds[k].clone();
                commands.push(Commands::SendKeys(SendKeys::new(target.clone(), c)));
                assert(commands.deep_view() =~= before.push(CommandView::SendKeys { target: target.deep_view(), command: cmds.deep_view()[k as int] }));
                assert(commands.deep_view() =~= start + Seq::new((k + 1) as nat, |m: int| CommandView::SendKeys { target: target.deep_view(), command: cmds.deep_view()[m] }));
                k = k + 1;
            }
            assert(commands.deep_view() =~= start + pre_window_keys(target.deep_view(), pre_window.deep_view()));
        },
        None => {
            assert(commands.deep_view() =~= old(commands).deep_view() + pre_window_keys(target.deep_view(), pre_window.deep_view()));
        },
    }
}

fn push_keys_opt(commands: &mut Vec<Commands>, target: &Target, command: &Option<String>)
    ensures
        final(commands).deep_view() == old(commands).deep_view() + keys_opt(target.deep_view(), command.deep_view()),
{
    match command {
        Some(c) => {
            commands.push(Commands::SendKeys(SendKeys::new(target.clone(), c.clone())));
        },
        None => {},
    }
    assert(commands.deep_view() =~= old(commands).deep_view() + keys_opt(target.deep_view(), command.deep_view()));
}

/// Produces the tmux commands that realise one window or pane of a session.
pub trait ToCommand {
    fn to_commands(&self, ctx: PlanContext) -> Result<Vec<Commands>, InterpreterError>;
}

/// A `cd` to the path, if there is one.
pub open spec fn cd_opt(t: TargetView, path: Option<Seq<char>>) -> Seq<CommandView> {
    match path {
        Some(p) => seq![CommandView::SendKeys { target: t, command: "cd "@ + p }],
        None => Seq::empty(),
    }
}

/// A layout selection, if there is a layout.
pub open spec fn layout_opt(t: TargetView, layout: Option<Seq<char>>) -> Seq<CommandView> {
    match layout {
        Some(l) => seq![CommandView::Layout { target: t, layout: l }],
        None => Seq::empty(),
    }
}

/// `n` splits of the target, each opening in the path.
pub open spec fn splits(t: TargetView, path: Option<Seq<char>>, n: nat) -> Seq<CommandView> {
    Seq::new(n, |k: int| CommandView::Split { target: t, path: path })
}

/// The command that opens a window: the session for the first window.
pub open spec fn opening_cmd(sv: SessionView, name: Seq<char>, w: WindowView, t: TargetView, first: bool) -> CommandView {
    if first {
        CommandView::Session { session: name, name: name, window_name: w.name, root: sv.root }
    } else {
        CommandView::Window { name: w.name, target: t, path: w.path }
    }
}

fn push_cd(commands: &mut Vec<Commands>, target: &Target, path: &Option<String>)
    ensures
        final(commands).deep_view() == old(commands).deep_view() + cd_opt(target.deep_view(), path.deep_view()),
{
    match path {
        Some(p) => {
            let mut cd = String::from_str("cd ");
            cd.append(p.as_str());
            commands.push(Commands::SendKeys(SendKeys::new(target.clone(), cd)));
        },
        None => {},
    }
    assert(commands.deep_view() =~= old(commands).deep_view() + cd_opt(target.deep_view(), path.deep_view()));
}

fn push_layout(commands: &mut Vec<Commands>, target: &Target, layout: &Option<String>)
    ensures
        final(commands).deep_view() == old(commands).deep_view() + layout_opt(target.deep_view(), layout.deep_view()),
{
    match layout {
        Some(l) => {
            commands.push(Commands::Layout(Layout::new(target.clone(), l.clone())));
        },
        None => {},
    }
    assert(commands.deep_view() =~= old(commands).deep_view() + layout_opt(target.deep_view(), layout.deep_view()));
}

fn push_splits(commands: &mut Vec<Commands>, target: &Target, path: &Option<String>, n: usize)
    ensures
        final(commands).deep_view() == old(commands).deep_view() + splits(target.deep_view(), path.deep_view(), n as nat),
{
    let ghost start = commands.deep_view();
    let ghost tv = target.deep_view();
    let mut k: usize = 0;
    while k < n
        invariant
            k <= n,
            tv == target.deep_view(),
            commands.deep_view() == start + splits(tv, path.deep_view(), k as nat),
        decreases n - k,
    {
        let ghost before = commands.deep_view();
        commands.push(Commands::Split(Split::new(target.clone(), crate::text::clone_opt_string(path))));
        assert(commands.deep_view() =~= before.push(CommandView::Split { target: tv, path: path.deep_view() }));
        assert(commands.deep_view() =~= start + splits(tv, path.deep_view(), (k + 1) as nat));
        k = k + 1;
    }
}

impl ToCommand for ConfigWindow {
    fn to_commands(&self, ctx: PlanContext) -> (r: Result<Vec<Commands>, InterpreterError>)
        ensures
            matches_result(r, window_cmds(ctx.session.deep_view(), self.deep_view(), ctx.first)),
    {
        let session_name = match ctx.session.name.as_ref() {
            Some(n) => n,
            None => return Err(InterpreterError::SessionNameRequired),
        };
        let target = match clone_opt_target(&self.target) {
            Some(t) => t,
            None => return Err(InterpreterError::WindowTargetRequired),
        };
        let ghost tv = target.deep_view();
        let ghost sv = ctx.session.deep_view();
        let ghost w = self.deep_view();
        let mut commands: Vec<Commands> = Vec::new();
        if ctx.first {
            commands.push(Commands::Session(Session::new(session_name.as_str(), self.name.as_str(),
                crate::text::clone_opt_string(&ctx.session.root))));
        } else {
            commands.push(Commands::Window(Window::new(self.name.as_str(), target.clone(),
                crate::text::clone_opt_string(&self.path))));
        }
        assert(commands.deep_view() =~= seq![opening_cmd(sv, session_name@, w, tv, ctx.first)]);
        push_cd(&mut commands, &target, &self.path);
        push_pre_window_keys(&mut commands, &target, &ctx.session.pre_window);
        let n = if self.panes.len() > 0 { self.panes.len() - 1 } else { 0 };
        assert(n == splits_for(w.panes.len()));
        push_splits(&mut commands, &target, &self.path, n);
        push_layout(&mut commands, &target, &self.layout);
        push_keys_opt(&mut commands, &target, &self.command);
        Ok(commands)
    }
}

impl ToCommand for ConfigPane {
    fn to_commands(&self, ctx: PlanContext) -> (r: Result<Vec<Commands>, InterpreterError>)
        ensures
            matches_result(r, pane_cmds(ctx.session.deep_view(), self.deep_view())),
    {
        let target = match clone_opt_target(&self.target) {
            Some(t) => t,
            None => return Err(InterpreterError::PaneTargetRequired),
        };
        let ghost tv = target.deep_view();
        let mut commands: Vec<Commands> = Vec::new();
        push_pre_window_keys(&mut commands, &target, &ctx.session.pre_window);
        push_keys_opt(&mut commands, &target, &self.command);
        let ghost part = commands.deep_view();
        if self.active {
            commands.push(Commands::SelectPane(SelectPane::new(target)));
        }
        proof {
            let spec_v = pane_cmds(ctx.session.deep_view(), self.deep_view());
            assert(spec_v matches Ok(v) && commands.deep_view() =~= v);
        }
        Ok(commands)
    }
}

/// Once the walk has met an error, every longer walk stops at the same error.
proof fn lemma_walk_err_persists(s: ConfigSession, k: nat, m: nat)
    requires
        k <= m,
        walk_cmds(s, k) is Err,
    ensures
        walk_cmds(s, m) == walk_cmds(s, k),
    decreases m - k,
{
    if k < m {
        lemma_walk_err_persists(s, k, (m - 1) as nat);
    }
}

fn push_pre_cmds(commands: &mut Vec<Commands>, pre: &Option<crate::tmux::pre::Pre>)
    ensures
        final(commands).deep_view() == old(commands).deep_view() + pre_cmds(pre.deep_view()),
{
    match pre {
        Some(p) => {
            let cmds = p.iter();
            let ghost start = commands.deep_view();
            let mut k: usize = 0;
            while k < cmds.len()
                invariant
                    k <= cmds.len(),
                    cmds.deep_view() == p.deep_view(),
                    commands.deep_view() == start + Seq::new(k as nat, |m: int| CommandView::Pre { command: cmds.deep_view()[m] }),
                decreases cmds.len() - k,
            {
                let ghost before = commands.deep_view();
                let c = cmds[k].clone();
                commands.push(Commands::Pre(crate::load::command::Pre::new(c)));
                assert(commands.deep_view() =~= before.push(CommandView::Pre { command: cmds.deep_view()[k as int] }));
                assert(commands.deep_view() =~= start + Seq::new((k + 1) as nat, |m: int| CommandView::Pre { command: cmds.deep_view()[m] }));
                k = k + 1;
            }
            assert(commands.deep_view() =~= start + pre_cmds(pre.deep_view()));
        },
        None => {
            assert(commands.deep_view() =~= old(commands).deep_view() + pre_cmds(pre.deep_view()));
        },
    }
}

fn selection(session: &ConfigSession, active: Option<Target>) -> (r: Result<Vec<Commands>, InterpreterError>)
    ensures
        matches_result(r, selection_cmds(session.deep_view(), active.deep_view())),
{
    let window_index = match session.config { Some(c) => c.base_index, None => 0 };
    let pane_index = match session.config { Some(c) => c.pane_base_index, None => 0 };
    let mut commands: Vec<Commands> = Vec::new();
    match active {
        Some(target) => {
            let pane = match target.extend(pane_index) {
                Ok(p) => p,
                Err(e) => return Err(InterpreterError::Common(e)),
            };
            commands.push(Commands::SelectWindow(SelectWindow::new(target)));
            commands.push(Commands::SelectPane(SelectPane::new(pane)));
        },
        None => {
            let st = match clone_opt_target(&session.target) {
                Some(t) => t,
                None => return Err(InterpreterError::SessionTargetRequired),
            };
            let window = match st.extend(window_index) {
                Ok(w) => w,
                Err(e) => return Err(InterpreterError::Common(e)),
            };
            let pane = match window.extend(pane_index) {
                Ok(p) => p,
                Err(e) => return Err(InterpreterError::Common(e)),
            };
            commands.push(Commands::SelectWindow(SelectWindow::new(window)));
            commands.push(Commands::SelectPane(SelectPane::new(pane)));
        },
    }
    proof {
        let spec_v = selection_cmds(session.deep_view(), active.deep_view());
        assert(spec_v matches Ok(v) && commands.deep_view() =~= v);
    }
    Ok(commands)
}

fn attach(session: &ConfigSession) -> (r: Result<Vec<Commands>, InterpreterError>)
    ensures
        matches_result(r, attach_cmds(session.deep_view())),
{
    let mut commands: Vec<Commands> = Vec::new();
    if session.daemonize != Some(true) {
        let target = match clone_opt_target(&session.target) {
            Some(t) => t,
            None => match session.name.as_ref() {
                Some(n) => Target::new(n.as_str(), None, None),
                None => return Err(InterpreterError::SessionTargetRequired),
            },
        };
        commands.push(Commands::Attach(Attach::new(target, crate::text::clone_opt_string(&session.root))));
    }
    proof {
        let spec_v = attach_cmds(session.deep_view());
        assert(spec_v matches Ok(v) && commands.deep_view() =~= v);
    }
    Ok(commands)
}

/// Produces the complete, ordered command list that builds a session in tmux.
pub trait Plan {
    fn command_plan(&self) -> Result<Vec<Commands>, InterpreterError>;
}

impl Plan for ConfigSession {
    /// The `pre` commands, then every window followed by its panes, then the
    /// focus on the first active window (or the first window), then the attach
    /// unless the session is to stay detached; or the first error met.
    fn command_plan(&self) -> (r: Result<Vec<Commands>, InterpreterError>)
        ensures
            matches_result(r, plan_spec(*self)),
    {
        let ghost sv = self.deep_view();
        let ghost nodes = flat_nodes(self.windows@);
        let mut commands: Vec<Commands> = Vec::new();
        push_pre_cmds(&mut commands, &self.pre);
        let mut active: Option<Target> = None;
        let mut it = self.iter();
        loop
            invariant
                it.wf(),
                it.session() == self,
                sv == self.deep_view(),
                nodes == flat_nodes(self.windows@),
                0 <= it.position() <= nodes.len(),
                walk_cmds(*self, it.position() as nat) is Ok,
                commands.deep_view() == pre_cmds(sv.pre) + walk_cmds(*self, it.position() as nat)->Ok_0,
                active.deep_view() == active_target(*self, it.position() as nat),
            ensures
                it.position() == nodes.len(),
                walk_cmds(*self, it.position() as nat) is Ok,
                commands.deep_view() == pre_cmds(sv.pre) + walk_cmds(*self, it.position() as nat)->Ok_0,
                active.deep_view() == active_target(*self, it.position() as nat),
            decreases nodes.len() - it.position(),
        {
            let ghost k = it.position();
            let ghost before = commands.deep_view();
            match it.next() {
                None => {
                    break;
                },
                Some(node) => {
                    assert(node_at_pos(node, nodes[k], self));
                    match node {
                        NodeRef::Window { index, window } => {
                            assert(sv.windows[index as int] == window.deep_view());
                            if window.active && active.is_none() {
                                active = clone_opt_target(&window.target);
                            }
                            let ctx = PlanContext { first: index == 0, session: self };
                            match window.to_commands(ctx) {
                                Ok(c) => {
                                    let mut c = c;
                                    let ghost cv = c.deep_view();
                                    commands.append(&mut c);
                                    assert(commands.deep_view() =~= before + cv);
                                },
                                Err(e) => {
                                    proof { lemma_walk_err_persists(*self, (k + 1) as nat, nodes.len()); }
                                    return Err(e);
                                },
                            }
                        },
                        NodeRef::Pane { window_index, pane_index, pane } => {
                            assert(sv.windows[window_index as int].panes[pane_index as int] == pane.deep_view());
                            let ctx = PlanContext { first: false, session: self };
                            match pane.to_commands(ctx) {
                                Ok(c) => {
                                    let mut c = c;
                                    let ghost cv = c.deep_view();
                                    commands.append(&mut c);
                                    assert(commands.deep_view() =~= before + cv);
                                },
                                Err(e) => {
                                    proof { lemma_walk_err_persists(*self, (k + 1) as nat, nodes.len()); }
                                    return Err(e);
                                },
                            }
                        },
                    }
                },
            }
        }
        let ghost body = commands.deep_view();
        let mut sel = match selection(self, active) {
            Ok(v) => v,
            Err(e) => return Err(e),
        };
        let ghost selv = sel.deep_view();
        commands.append(&mut sel);
        assert(commands.deep_view() =~= body + selv);
        let ghost body2 = commands.deep_view();
        let mut att = match attach(self) {
            Ok(v) => v,
            Err(e) => return Err(e),
        };
        let ghost attv = att.deep_view();
        commands.append(&mut att);
        assert(commands.deep_view() =~= body2 + attv);
        Ok(commands)
    }
}

/// The node stands at the place and is what the session holds there.
pub open spec fn node_at_pos(n: NodeRef, pos: NodePos, session: &ConfigSession) -> bool {
    crate::tmux::session::node_at(n, pos, session)
}

} // verus!
