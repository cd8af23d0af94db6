//! A tmux session: its windows and the options that shape how it is built.

use vstd::prelude::*;
use crate::tmux::config::Config;
use crate::tmux::pane::Pane;
use crate::tmux::pre::Pre;
use crate::tmux::target::{Target, TargetView};
use crate::tmux::window::{Window, WindowView};

verus! {

#[derive(Debug)]
pub struct Session {
    pub name: Option<String>,
    pub pre: Option<Pre>,
    pub pre_window: Option<Pre>,
    pub root: Option<String>,
    pub windows: Vec<Window>,
    pub target: Option<Target>,
    pub daemonize: Option<bool>,
    pub config: Option<Config>,
}

/// What a session says, as plain values.
pub struct SessionView {
    pub name: Option<Seq<char>>,
    pub pre: Option<Seq<Seq<char>>>,
    pub pre_window: Option<Seq<Seq<char>>>,
    pub root: Option<Seq<char>>,
    pub windows: Seq<WindowView>,
    pub target: Option<TargetView>,
    pub daemonize: Option<bool>,
    pub config: Option<Config>,
}

impl DeepView for Session {
    type V = SessionView;

    open spec fn deep_view(&self) -> SessionView {
        SessionView {
            name: self.name.deep_view(),
            pre: self.pre.deep_view(),
            pre_window: self.pre_window.deep_view(),
            root: self.root.deep_view(),
            windows: self.windows.deep_view(),
            target: self.target.deep_view(),
            daemonize: self.daemonize,
            config: self.config,
        }
    }
}

impl Default for Session {
    fn default() -> (s: Session)
        ensures
            s.name is None,
            s.pre is None,
            s.pre_window is None,
            s.root is None,
            s.windows@ == Seq::<Window>::empty(),
            s.target is None,
            s.daemonize is None,
            s.config is None,
    {
        Session {
            name: None,
            pre: None,
            pre_window: None,
            root: None,
            windows: Vec::new(),
            target: None,
            daemonize: None,
            config: None,
        }
    }
}

/// A place in a session: a window, or a pane of a window.
pub enum NodePos {
    Window(int),
    Pane(int, int),
}

/// The places of one window: the window, then each of its panes in order.
pub open spec fn window_block(i: int, n: nat) -> Seq<NodePos> {
    seq![NodePos::Window(i)] + Seq::new(n, |j: int| NodePos::Pane(i, j))
}

/// The places of a session in the order a walk visits them: every window,
/// each followed at once by its panes.
pub open spec fn flat_nodes(windows: Seq<Window>) -> Seq<NodePos>
    decreases windows.len(),
{
    if windows.len() == 0 {
        Seq::empty()
    } else {
        flat_nodes(windows.drop_last()) + window_block(windows.len() - 1, windows.last().panes@.len())
    }
}

/// The number of panes of all windows together.
pub open spec fn total_panes(windows: Seq<Window>) -> nat
    decreases windows.len(),
{
    if windows.len() == 0 {
        0
    } else {
        total_panes(windows.drop_last()) + windows.last().panes@.len()
    }
}

/// A walk visits every window once and every pane once.
pub proof fn lemma_node_count(windows: Seq<Window>)
    ensures
        flat_nodes(windows).len() == windows.len() + total_panes(windows),
    decreases windows.len(),
{
    if windows.len() > 0 {
        lemma_node_count(windows.drop_last());
    }
}

/// A window or a pane met on a walk through a session, with its place.
#[derive(Debug, Clone, Copy)]
pub enum NodeRef<'a> {
    Window {
        index: usize,
        window: &'a Window,
    },
    Pane {
        window_index: usize,
        pane_index: usize,
        pane: &'a Pane,
    },
}

/// The node stands at `pos` of `session` and refers to what is there.
pub open spec fn node_at(n: NodeRef, pos: NodePos, session: &Session) -> bool {
    match n {
        NodeRef::Window { index, window } => pos == NodePos::Window(index as int)
            && index < session.windows@.len() && *window == session.windows@[index as int],
        NodeRef::Pane { window_index, pane_index, pane } => pos == NodePos::Pane(window_index as int, pane_index as int)
            && window_index < session.windows@.len()
            && pane_index < session.windows@[window_index as int].panes@.len()
            && *pane == session.windows@[window_index as int].panes@[pane_index as int],
    }
}

/// A walk over the windows and panes of a session, in order.
pub struct SessionIter<'a> {
    session: &'a Session,
    nodes: Vec<NodeRef<'a>>,
    next: usize,
}

proof fn lemma_flat_step(windows: Seq<Window>, i: int)
    requires
        0 <= i < windows.len(),
    ensures
        flat_nodes(windows.take(i + 1)) == flat_nodes(windows.take(i)) + window_block(i, windows[i].panes@.len()),
{
    assert(windows.take(i + 1).drop_last() =~= windows.take(i));
}

impl<'a> SessionIter<'a> {
    /// The session walked.
    pub closed spec fn session(&self) -> &'a Session {
        self.session
    }

    /// The nodes still to come.
    pub closed spec fn remaining(&self) -> Seq<NodeRef<'a>> {
        self.nodes@.skip(self.next as int)
    }

    /// The nodes still to come stand at the places that follow in the walk.
    pub closed spec fn wf(&self) -> bool {
        &&& self.next <= self.nodes@.len()
        &&& self.nodes@.len() == flat_nodes(self.session.windows@).len()
        &&& forall|k: int| 0 <= k < self.nodes@.len() ==>
                node_at(#[trigger] self.nodes@[k], flat_nodes(self.session.windows@)[k], self.session)
    }

    /// The number of nodes already handed out.
    pub closed spec fn position(&self) -> int {
        self.next as int
    }

    /// Starts a walk at the first window of `session`.
    pub fn new(session: &'a Session) -> (it: SessionIter<'a>)
        ensures
            it.wf(),
            it.session() == session,
            it.position() == 0,
    {
        let mut nodes: Vec<NodeRef<'a>> = Vec::new();
        let mut i: usize = 0;
        let ghost ws = session.windows@;
        while i < session.windows.len()
            invariant
                ws == session.windows@,
                i <= ws.len(),
                nodes@.len() == flat_nodes(ws.take(i as int)).len(),
                forall|k: int| 0 <= k < nodes@.len() ==>
                    node_at(#[trigger] nodes@[k], flat_nodes(ws.take(i as int))[k], session),
            decreases ws.len() - i,
        {
            let window = &session.windows[i];
            proof { lemma_flat_step(ws, i as int); }
            let ghost before = nodes@;
            let ghost block = window_block(i as int, window.panes@.len());
            nodes.push(NodeRef::Window { index: i, window });
            let mut j: usize = 0;
            while j < window.panes.len()
                invariant
                    ws == session.windows@,
                    i < ws.len(),
                    *window == ws[i as int],
                    block == window_block(i as int, window.panes@.len()),
                    j <= window.panes@.len(),
                    nodes@.len() == before.len() + 1 + j,
                    before.len() == flat_nodes(ws.take(i as int)).len(),
                    forall|k: int| 0 <= k < before.len() ==> nodes@[k] == before[k],
                    forall|k: int| 0 <= k < before.len() ==>
                        node_at(#[trigger] before[k], flat_nodes(ws.take(i as int))[k], session),
                    forall|k: int| before.len() <= k < nodes@.len() ==>
                        node_at(#[trigger] nodes@[k], block[k - before.len()], session),
                decreases window.panes@.len() - j,
            {
                nodes.push(NodeRef::Pane { window_index: i, pane_index: j, pane: &window.panes[j] });
                j = j + 1;
            }
            i = i + 1;
            assert forall|k: int| 0 <= k < nodes@.len() implies
                node_at(#[trigger] nodes@[k], flat_nodes(ws.take(i as int))[k], session) by {
                if k < before.len() {
                    assert(nodes@[k] == before[k]);
                }
            }
        }
        assert(ws.take(ws.len() as int) =~= ws);
        SessionIter { session, nodes, next: 0 }
    }

    /// Hands out the next window or pane of the walk, or `None` once all were handed out.
    pub fn next(&mut self) -> (r: Option<NodeRef<'a>>)
        requires
            old(self).wf(),
        ensures
            final(self).wf(),
            final(self).session() == old(self).session(),
            old(self).position() < flat_nodes(old(self).session().windows@).len() ==> {
                &&& r matches Some(n)
                &&& node_at(n, flat_nodes(old(self).session().windows@)[old(self).position()], old(self).session())
                &&& final(self).position() == old(self).position() + 1
            },
            old(self).position() >= flat_nodes(old(self).session().windows@).len() ==> {
                &&& r is None
                &&& final(self).position() == old(self).position()
            },
    {
        if self.next < self.nodes.len() {
            let n = self.nodes[self.next];
            self.next = self.next + 1;
            Some(n)
        } else {
            None
        }
    }
}

/// A place in a session handed out by a walk that may change what it visits:
/// the caller changes the window or pane through the session at that place.
#[derive(Debug, Clone, Copy, PartialEq, Eq, Structural)]
pub enum NodeMut {
    Window {
        index: usize,
    },
    Pane {
        window_index: usize,
        pane_index: usize,
    },
}

/// The place a `NodeMut` names.
pub open spec fn node_mut_pos(n: NodeMut) -> NodePos {
    match n {
        NodeMut::Window { index } => NodePos::Window(index as int),
        NodeMut::Pane { window_index, pane_index } => NodePos::Pane(window_index as int, pane_index as int),
    }
}

/// A walk over the places of a session's windows and panes, in order.
pub struct SessionIterMut {
    places: Vec<NodeMut>,
    next: usize,
    len: usize,
}

impl SessionIterMut {
    /// The places still to come.
    pub closed spec fn remaining(&self) -> Seq<NodePos> {
        self.places@.skip(self.next as int).map_values(|n: NodeMut| node_mut_pos(n))
    }

    /// The number of windows of the session walked.
    pub closed spec fn window_count(&self) -> nat {
        self.len as nat
    }

    pub closed spec fn wf(&self) -> bool {
        self.next <= self.places@.len()
    }

    /// Starts a walk over the places of `session`; the session is left as it is.
    pub fn new(session: &mut Session) -> (it: SessionIterMut)
        ensures
            *final(session) == *old(session),
            it.wf(),
            it.window_count() == old(session).windows@.len(),
            it.remaining() == flat_nodes(old(session).windows@),
    {
        let len = session.windows.len();
        let mut places: Vec<NodeMut> = Vec::new();
        let mut i: usize = 0;
        let ghost ws = session.windows@;
        while i < len
            invariant
                ws == session.windows@,
                len == ws.len(),
                i <= len,
                places@.map_values(|n: NodeMut| node_mut_pos(n)) == flat_nodes(ws.take(i as int)),
            decreases len - i,
        {
            let n = session.windows[i].panes.len();
            proof { lemma_flat_step(ws, i as int); }
            let ghost before = places@;
            places.push(NodeMut::Window { index: i });
            let mut j: usize = 0;
            while j < n
                invariant
                    i < len,
                    n == ws[i as int].panes@.len(),
                    j <= n,
                    before.map_values(|n: NodeMut| node_mut_pos(n)) == flat_nodes(ws.take(i as int)),
                    places@.map_values(|n: NodeMut| node_mut_pos(n))
                        == before.map_values(|n: NodeMut| node_mut_pos(n)) + window_block(i as int, j as nat),
                decreases n - j,
            {
                let ghost prev = places@;
                places.push(NodeMut::Pane { window_index: i, pane_index: j });
                assert(places@.map_values(|n: NodeMut| node_mut_pos(n))
                    =~= prev.map_values(|n: NodeMut| node_mut_pos(n)).push(NodePos::Pane(i as int, j as int)));
                assert(window_block(i as int, (j + 1) as nat) =~= window_block(i as int, j as nat).push(NodePos::Pane(i as int, j as int)));
                j = j + 1;
            }
            i = i + 1;
        }
        assert(ws.take(len as int) =~= ws);
        let it = SessionIterMut { places, next: 0, len };
        assert(it.places@.skip(0) =~= it.places@);
        it
    }

    /// Hands out the next place of the walk, or `None` once all were handed out.
    pub fn next(&mut self) -> (r: Option<NodeMut>)
        requires
            old(self).wf(),
        ensures
            final(self).wf(),
            final(self).window_count() == old(self).window_count(),
            old(self).remaining().len() > 0 ==> {
                &&& r matches Some(n)
                &&& node_mut_pos(n) == old(self).remaining()[0]
                &&& final(self).remaining() == old(self).remaining().drop_first()
            },
            old(self).remaining().len() == 0 ==> {
                &&& r is None
                &&& final(self).remaining() == old(self).remaining()
            },
    {
        if self.next < self.places.len() {
            let n = self.places[self.next];
            let ghost old_places = self.places@;
            self.next = self.next + 1;
            assert(old_places.skip(self.next as int) =~= old_places.skip(self.next - 1).drop_first());
            Some(n)
        } else {
            None
        }
    }
}

impl Session {
    /// Walks all windows and panes of the session: each window, followed by
    /// each of its panes, in order.
    pub fn iter(&self) -> (it: SessionIter<'_>)
        ensures
            it.wf(),
            it.session() == self,
            it.position() == 0,
    {
        SessionIter::new(self)
    }

    /// Walks the places of all windows and panes of the session, in the same order.
    pub fn iter_mut(&mut self) -> (it: SessionIterMut)
        ensures
            *final(self) == *old(self),
            it.wf(),
            it.remaining() == flat_nodes(old(self).windows@),
    {
        SessionIterMut::new(self)
    }

    pub fn pre(&self) -> (p: Option<&Pre>)
        ensures
            match (p, self.pre) {
                (Some(a), Some(b)) => *a == b,
                (None, None) => true,
                _ => false,
            },
    {
        self.pre.as_ref()
    }

    /// The same `pre` commands as `pre()`: this accessor reads the `pre` field.
    pub fn pre_window(&self) -> (p: Option<&Pre>)
        ensures
            match (p, self.pre) {
                (Some(a), Some(b)) => *a == b,
                (None, None) => true,
                _ => false,
            },
    {
        self.pre.as_ref()
    }
}

} // verus!
