//! Rebuilding a session from tmux's listing of its windows and panes.

use vstd::prelude::*;
use crate::snapshot::entity::{Entity, pane_of_entity, window_of_entity};
use crate::snapshot::process::ProcessTable;
use crate::tmux::pane::{Pane, PaneView};
use crate::tmux::session::Session;
use crate::text::clone_opt_string;
use crate::tmux::target::{Target, clone_opt_target};
use crate::tmux::window::{Window, WindowView};

verus! {

/// The paths of the panes that have one, in order.
pub open spec fn path_list(panes: Seq<PaneView>) -> Seq<Seq<char>>
    decreases panes.len(),
{
    if panes.len() == 0 {
        Seq::empty()
    } else {
        path_list(panes.drop_last()) + match panes.last().path {
            Some(p) => seq![p],
            None => Seq::empty(),
        }
    }
}

/// How many times `p` occurs in the list.
pub open spec fn count_of(list: Seq<Seq<char>>, p: Seq<char>) -> nat
    decreases list.len(),
{
    if list.len() == 0 {
        0
    } else {
        count_of(list.drop_last(), p) + if list.last() == p { 1nat } else { 0nat }
    }
}

/// The paths of all panes of all windows, in order.
pub open spec fn all_pane_paths(windows: Seq<WindowView>) -> Seq<Seq<char>>
    decreases windows.len(),
{
    if windows.len() == 0 {
        Seq::empty()
    } else {
        all_pane_paths(windows.drop_last()) + path_list(windows.last().panes)
    }
}

/// A path held by more than half of the panes; there is at most one.
pub open spec fn majority_path(panes: Seq<PaneView>) -> Option<Seq<char>> {
    majority_path_of(path_list(panes), panes.len())
}

/// `root` is a most common path among `paths` that occurs more than once, or
/// there is none when no path occurs twice.
pub open spec fn is_common_root(paths: Seq<Seq<char>>, root: Option<Seq<char>>) -> bool {
    match root {
        Some(r) => count_of(paths, r) > 1 && forall|q: Seq<char>| count_of(paths, q) <= count_of(paths, r),
        None => forall|q: Seq<char>| count_of(paths, q) <= 1,
    }
}

/// A pane's path is cleared when the window's path (or, for a window without
/// one, the root) already says it.
pub open spec fn cleared_pane_path(p: Option<Seq<char>>, wp: Option<Seq<char>>, root: Option<Seq<char>>) -> Option<Seq<char>> {
    match (p, wp, root) {
        (Some(x), Some(y), _) => if x == y { None } else { p },
        (Some(x), None, Some(r)) => if x == r { None } else { p },
        _ => p,
    }
}

/// A window's path is cleared when the root already says it; then its panes' paths.
pub open spec fn cleared_window(w: WindowView, root: Option<Seq<char>>) -> WindowView {
    let wp = if w.path is Some && w.path == root { None } else { w.path };
    WindowView {
        path: wp,
        panes: Seq::new(w.panes.len(), |j: int| PaneView {
            path: cleared_pane_path(w.panes[j].path, wp, root),
            ..w.panes[j]
        }),
        ..w
    }
}

proof fn lemma_count_le_len(list: Seq<Seq<char>>, p: Seq<char>)
    ensures
        count_of(list, p) <= list.len(),
        count_of(list, p) > 0 ==> list.contains(p),
    decreases list.len(),
{
    if list.len() > 0 {
        lemma_count_le_len(list.drop_last(), p);
        if count_of(list.drop_last(), p) > 0 {
            let k = choose|k: int| 0 <= k < list.drop_last().len() && list.drop_last()[k] == p;
            assert(list[k] == p);
        }
        if list.last() == p {
            assert(list[list.len() - 1] == p);
        }
    }
}

proof fn lemma_path_list_len(panes: Seq<PaneView>)
    ensures
        path_list(panes).len() <= panes.len(),
    decreases panes.len(),
{
    if panes.len() > 0 {
        lemma_path_list_len(panes.drop_last());
    }
}

/// The paths of the panes, in order.
fn pane_paths(panes: &Vec<Pane>) -> (r: Vec<String>)
    ensures
        r.deep_view() == path_list(panes.deep_view()),
{
    let mut r: Vec<String> = Vec::new();
    let mut i: usize = 0;
    while i < panes.len()
        invariant
            i <= panes.len(),
            r.deep_view() == path_list(panes.deep_view().take(i as int)),
        decreases panes.len() - i,
    {
        assert(panes.deep_view().take(i + 1).drop_last() =~= panes.deep_view().take(i as int));
        let ghost before = r.deep_view();
        match &panes[i].path {
            Some(p) => {
                r.push(p.clone());
                assert(r.deep_view() =~= before + seq![p@]);
            },
            None => {
                assert(r.deep_view() =~= before + Seq::<Seq<char>>::empty());
            },
        }
        i = i + 1;
    }
    assert(panes.deep_view().take(panes.len() as int) =~= panes.deep_view());
    r
}

/// How many times `p` occurs in `list`.
fn count_in(list: &Vec<String>, p: &String) -> (c: usize)
    ensures
        c == count_of(list.deep_view(), p@),
{
    let mut c: usize = 0;
    let mut i: usize = 0;
    while i < list.len()
        invariant
            i <= list.len(),
            c == count_of(list.deep_view().take(i as int), p@),
            c <= i,
        decreases list.len() - i,
    {
        assert(list.deep_view().take(i + 1).drop_last() =~= list.deep_view().take(i as int));
        if list[i] == *p {
            c = c + 1;
        }
        i = i + 1;
    }
    assert(list.deep_view().take(list.len() as int) =~= list.deep_view());
    c
}

/// The path held by more than half of a window's panes, if any.
pub fn derive_window_path(panes: &Vec<Pane>) -> (r: Option<String>)
    ensures
        r.deep_view() == majority_path(panes.deep_view()),
{
    let ghost pv = panes.deep_view();
    let paths = pane_paths(panes);
    proof { lemma_path_list_len(pv); }
    let n = panes.len();
    let mut i: usize = 0;
    while i < paths.len()
        invariant
            n == pv.len(),
            pv == panes.deep_view(),
            paths.deep_view() == path_list(pv),
            paths.len() <= n,
            i <= paths.len(),
            forall|k: int| 0 <= k < i ==> count_of(path_list(pv), #[trigger] paths.deep_view()[k]) * 2 <= n,
        decreases paths.len() - i,
    {
        let c = count_in(&paths, &paths[i]);
        proof { lemma_count_le_len(path_list(pv), paths@[i as int]@); }
        if c > n - c {
            let p = paths[i].clone();
            proof {
                let q = paths@[i as int]@;
                assert(paths.deep_view()[i as int] == q);
                assert(c == count_of(path_list(pv), q));
                assert(count_of(path_list(pv), q) * 2 > pv.len());
                lemma_majority_unique(path_list(pv), pv.len(), q);
                assert(p@ == q);
            }
            return Some(p);
        }
        i = i + 1;
    }
    proof {
        assert forall|q: Seq<char>| !(count_of(path_list(pv), q) * 2 > pv.len()) by {
            lemma_count_le_len(path_list(pv), q);
            if count_of(path_list(pv), q) > 0 {
                let k = choose|k: int| 0 <= k < path_list(pv).len() && path_list(pv)[k] == q;
                assert(paths.deep_view()[k] == q);
            }
        }
    }
    None
}

proof fn lemma_count_sum_le(list: Seq<Seq<char>>, p: Seq<char>, q: Seq<char>)
    requires
        p != q,
    ensures
        count_of(list, p) + count_of(list, q) <= list.len(),
    decreases list.len(),
{
    if list.len() > 0 {
        lemma_count_sum_le(list.drop_last(), p, q);
    }
}

/// A path that more than half of `n` entries hold is the only such path.
proof fn lemma_majority_unique(list: Seq<Seq<char>>, n: nat, p: Seq<char>)
    requires
        list.len() <= n,
        count_of(list, p) * 2 > n,
    ensures
        majority_path_of(list, n) == Some(p),
{
    assert forall|q: Seq<char>| count_of(list, q) * 2 > n implies q == p by {
        if q != p {
            lemma_count_sum_le(list, p, q);
        }
    }
    let c = choose|c: Seq<char>| count_of(list, c) * 2 > n;
    assert(c == p);
}

/// The one path held by more than half of `n` entries, if any.
pub open spec fn majority_path_of(list: Seq<Seq<char>>, n: nat) -> Option<Seq<char>> {
    if exists|p: Seq<char>| count_of(list, p) * 2 > n {
        Some(choose|p: Seq<char>| count_of(list, p) * 2 > n)
    } else {
        None
    }
}


/// The windows of a session, keyed by their index, once `e` has been read:
/// a window replaces any window of the same index, and a pane joins its
/// window's panes, or is dropped when no window of its index was listed.
pub open spec fn add_entity(m: Map<usize, WindowView>, e: Entity, procs: ProcessTable) -> Map<usize, WindowView> {
    match e {
        Entity::Window { index, .. } => match window_of_entity(e) {
            Ok(w) => m.insert(index, w),
            Err(_) => m,
        },
        Entity::Pane { window_index, .. } => match pane_of_entity(e, procs) {
            Ok(p) => if m.dom().contains(window_index) {
                m.insert(window_index, WindowView { panes: m[window_index].panes.push(p), ..m[window_index] })
            } else {
                m
            },
            Err(_) => m,
        },
    }
}

/// The windows, keyed by index, that a listing describes.
pub open spec fn windows_by_index(entities: Seq<Entity>, procs: ProcessTable) -> Map<usize, WindowView>
    decreases entities.len(),
{
    if entities.len() == 0 {
        Map::empty()
    } else {
        add_entity(windows_by_index(entities.drop_last(), procs), entities.last(), procs)
    }
}

/// `keys` lists the keys of `m` in increasing order, each once.
pub open spec fn key_order(m: Map<usize, WindowView>, keys: Seq<usize>) -> bool {
    &&& forall|i: int, j: int| 0 <= i < j < keys.len() ==> keys[i] < keys[j]
    &&& forall|k: usize| m.dom().contains(k) <==> keys.contains(k)
}

/// The windows of `m` in the order of `keys`.
pub open spec fn listed(m: Map<usize, WindowView>, keys: Seq<usize>) -> Seq<WindowView> {
    Seq::new(keys.len(), |i: int| m[keys[i]])
}

/// Each window takes the path that most of its panes share.
pub open spec fn with_window_paths(ws: Seq<WindowView>) -> Seq<WindowView> {
    Seq::new(ws.len(), |i: int| WindowView { path: majority_path(ws[i].panes), ..ws[i] })
}

/// Each window with the paths that the root (and its own path) already say cleared.
pub open spec fn cleared_windows(ws: Seq<WindowView>, root: Option<Seq<char>>) -> Seq<WindowView> {
    Seq::new(ws.len(), |i: int| cleared_window(ws[i], root))
}

/// There is one increasing order of a set of keys.
pub proof fn lemma_key_order_unique(m: Map<usize, WindowView>, a: Seq<usize>, b: Seq<usize>)
    requires
        key_order(m, a),
        key_order(m, b),
    ensures
        a == b,
    decreases a.len() + b.len(),
{
    if a.len() == 0 || b.len() == 0 {
        if a.len() > 0 {
            assert(a.contains(a[0]));
            assert(m.dom().contains(a[0]));
            assert(b.contains(a[0]));
        }
        if b.len() > 0 {
            assert(b.contains(b[0]));
            assert(m.dom().contains(b[0]));
            assert(a.contains(b[0]));
        }
        assert(a =~= b);
    } else {
        let x = a.last();
        let y = b.last();
        assert(a.contains(x));
        assert(b.contains(y));
        assert(m.dom().contains(x));
        assert(m.dom().contains(y));
        assert(a.contains(y));
        assert(b.contains(x));
        let ia = choose|i: int| 0 <= i < a.len() && a[i] == y;
        let ib = choose|i: int| 0 <= i < b.len() && b[i] == x;
        assert(x == y) by {
            if x < y {
                assert(ib < b.len() - 1);
            } else if y < x {
                assert(ia < a.len() - 1);
            }
        }
        let m2 = m.remove(x);
        assert forall|k: usize| m2.dom().contains(k) <==> a.drop_last().contains(k) by {
            if a.drop_last().contains(k) {
                let i = choose|i: int| 0 <= i < a.drop_last().len() && a.drop_last()[i] == k;
                assert(a[i] == k);
                assert(a[i] < a[a.len() - 1]);
                assert(a.contains(k));
                assert(m.dom().contains(k));
            }
            if m2.dom().contains(k) {
                assert(a.contains(k));
                let i = choose|i: int| 0 <= i < a.len() && a[i] == k;
                assert(i != a.len() - 1);
                assert(a.drop_last()[i] == k);
            }
        }
        assert forall|k: usize| m2.dom().contains(k) <==> b.drop_last().contains(k) by {
            if b.drop_last().contains(k) {
                let i = choose|i: int| 0 <= i < b.drop_last().len() && b.drop_last()[i] == k;
                assert(b[i] == k);
                assert(b[i] < b[b.len() - 1]);
                assert(b.contains(k));
                assert(m.dom().contains(k));
            }
            if m2.dom().contains(k) {
                assert(b.contains(k));
                let i = choose|i: int| 0 <= i < b.len() && b[i] == k;
                assert(i != b.len() - 1);
                assert(b.drop_last()[i] == k);
            }
        }
        lemma_key_order_unique(m2, a.drop_last(), b.drop_last());
        assert(a =~= a.drop_last().push(x));
        assert(b =~= b.drop_last().push(y));
    }
}


/// The paths of the panes of all windows, in order.
fn all_paths(windows: &Vec<Window>) -> (r: Vec<String>)
    ensures
        r.deep_view() == all_pane_paths(windows.deep_view()),
{
    let mut r: Vec<String> = Vec::new();
    let mut i: usize = 0;
    while i < windows.len()
        invariant
            i <= windows.len(),
            r.deep_view() == all_pane_paths(windows.deep_view().take(i as int)),
        decreases windows.len() - i,
    {
        assert(windows.deep_view().take(i + 1).drop_last() =~= windows.deep_view().take(i as int));
        assert(windows.deep_view().take(i + 1).last() == windows@[i as int].deep_view());
        let ps = pane_paths(&windows[i].panes);
        let ghost before = r.deep_view();
        let mut j: usize = 0;
        while j < ps.len()
            invariant
                j <= ps.len(),
                r.deep_view() == before + ps.deep_view().take(j as int),
            decreases ps.len() - j,
        {
            let ghost prev = r.deep_view();
            r.push(ps[j].clone());
            assert(r.deep_view() =~= prev.push(ps@[j as int]@));
            assert(ps.deep_view().take(j + 1) =~= ps.deep_view().take(j as int).push(ps@[j as int]@));
            assert(r.deep_view() =~= before + ps.deep_view().take(j + 1));
            j = j + 1;
        }
        assert(ps.deep_view().take(ps.len() as int) =~= ps.deep_view());
        i = i + 1;
    }
    assert(windows.deep_view().take(windows.len() as int) =~= windows.deep_view());
    r
}

/// The path that most panes of the session share, provided some path is
/// shared by two panes or more; among paths shared equally often, one of them.
pub fn derive_root_path(windows: &Vec<Window>) -> (r: Option<String>)
    ensures
        is_common_root(all_pane_paths(windows.deep_view()), r.deep_view()),
{
    let paths = all_paths(windows);
    let ghost ps = paths.deep_view();
    let mut best: Option<usize> = None;
    let mut best_count: usize = 1;
    let mut i: usize = 0;
    while i < paths.len()
        invariant
            i <= paths.len(),
            ps == paths.deep_view(),
            best_count >= 1,
            match best {
                Some(b) => b < paths.len() && best_count == count_of(ps, ps[b as int]) && best_count > 1,
                None => best_count == 1,
            },
            forall|k: int| 0 <= k < i ==> count_of(ps, #[trigger] ps[k]) <= best_count,
        decreases paths.len() - i,
    {
        let c = count_in(&paths, &paths[i]);
        if c > best_count {
            best = Some(i);
            best_count = c;
        }
        i = i + 1;
    }
    proof {
        assert forall|q: Seq<char>| count_of(ps, q) <= best_count by {
            lemma_count_le_len(ps, q);
            if count_of(ps, q) > 0 {
                let k = choose|k: int| 0 <= k < ps.len() && ps[k] == q;
                assert(count_of(ps, ps[k]) <= best_count);
            }
        }
    }
    match best {
        Some(b) => {
            let r = paths[b].clone();
            assert(ps[b as int] == r@);
            Some(r)
        },
        None => None,
    }
}

fn opt_eq(a: &Option<String>, b: &Option<String>) -> (r: bool)
    ensures
        r == (a.deep_view() == b.deep_view()),
{
    match (a, b) {
        (Some(x), Some(y)) => *x == *y,
        (None, None) => true,
        _ => false,
    }
}

/// A pane whose path its window's path (or the root) already says loses it.
fn clear_pane(p: &Pane, wp: &Option<String>, root: &Option<String>) -> (r: Pane)
    ensures
        r.deep_view() == (PaneView {
            path: cleared_pane_path(p.path.deep_view(), wp.deep_view(), root.deep_view()),
            ..p.deep_view()
        }),
{
    let clear = match (&p.path, wp, root) {
        (Some(x), Some(y), _) => *x == *y,
        (Some(x), None, Some(r)) => *x == *r,
        _ => false,
    };
    let mut q = p.clone();
    if clear {
        q.path = None;
    }
    q
}

/// A window whose path the root already says loses it, and so do its panes.
fn clear_window(w: &Window, root: &Option<String>) -> (r: Window)
    ensures
        r.deep_view() == cleared_window(w.deep_view(), root.deep_view()),
{
    let wp = if w.path.is_some() && opt_eq(&w.path, root) {
        None
    } else {
        clone_opt_string(&w.path)
    };
    let mut panes: Vec<Pane> = Vec::new();
    let mut j: usize = 0;
    while j < w.panes.len()
        invariant
            j <= w.panes.len(),
            panes.len() == j,
            forall|k: int| 0 <= k < j ==> (#[trigger] panes@[k]).deep_view() == (PaneView {
                path: cleared_pane_path(w.panes@[k].path.deep_view(), wp.deep_view(), root.deep_view()),
                ..w.panes@[k].deep_view()
            }),
        decreases w.panes.len() - j,
    {
        panes.push(clear_pane(&w.panes[j], &wp, root));
        j = j + 1;
    }
    let r = Window {
        active: w.active,
        command: clone_opt_string(&w.command),
        layout: clone_opt_string(&w.layout),
        name: w.name.clone(),
        panes: panes,
        path: wp,
        target: clone_opt_target(&w.target),
    };
    assert(r.panes.deep_view() =~= cleared_window(w.deep_view(), root.deep_view()).panes);
    r
}

/// Every window with the paths that the root or its own path already say cleared.
fn clear_redundant_paths(windows: &Vec<Window>, root: &Option<String>) -> (r: Vec<Window>)
    ensures
        r.deep_view() == cleared_windows(windows.deep_view(), root.deep_view()),
{
    let mut r: Vec<Window> = Vec::new();
    let mut i: usize = 0;
    while i < windows.len()
        invariant
            i <= windows.len(),
            r.len() == i,
            forall|k: int| 0 <= k < i ==> (#[trigger] r@[k]).deep_view() == cleared_window(windows@[k].deep_view(), root.deep_view()),
        decreases windows.len() - i,
    {
        r.push(clear_window(&windows[i], root));
        i = i + 1;
    }
    assert(r.deep_view() =~= cleared_windows(windows.deep_view(), root.deep_view()));
    r
}

/// Every window given the path that most of its panes share.
fn set_window_paths(windows: &Vec<Window>) -> (r: Vec<Window>)
    ensures
        r.deep_view() == with_window_paths(windows.deep_view()),
{
    let mut r: Vec<Window> = Vec::new();
    let mut i: usize = 0;
    while i < windows.len()
        invariant
            i <= windows.len(),
            r.len() == i,
            forall|k: int| 0 <= k < i ==> (#[trigger] r@[k]).deep_view() == (WindowView {
                path: majority_path(windows@[k].panes.deep_view()),
                ..windows@[k].deep_view()
            }),
        decreases windows.len() - i,
    {
        let mut w = windows[i].clone();
        w.path = derive_window_path(&windows[i].panes);
        r.push(w);
        i = i + 1;
    }
    assert(r.deep_view() =~= with_window_paths(windows.deep_view()));
    r
}


/// Where `k` belongs among increasing keys: every key before it is smaller.
fn position_of(keys: &Vec<usize>, k: usize) -> (pos: usize)
    requires
        forall|i: int, j: int| 0 <= i < j < keys.len() ==> keys[i] < keys[j],
    ensures
        pos <= keys.len(),
        forall|j: int| 0 <= j < pos ==> keys[j] < k,
        pos < keys.len() ==> keys[pos as int] >= k,
{
    let mut pos: usize = 0;
    while pos < keys.len() && keys[pos] < k
        invariant
            pos <= keys.len(),
            forall|j: int| 0 <= j < pos ==> keys[j] < k,
        decreases keys.len() - pos,
    {
        pos = pos + 1;
    }
    pos
}

/// Reads a listing into its windows, ordered by index, with their panes.
fn collect_windows(entities: &Vec<Entity>, procs: &ProcessTable) -> (r: (Vec<usize>, Vec<Window>))
    ensures
        key_order(windows_by_index(entities@, *procs), r.0@),
        r.1.deep_view() == listed(windows_by_index(entities@, *procs), r.0@),
{
    let mut keys: Vec<usize> = Vec::new();
    let mut wins: Vec<Window> = Vec::new();
    let mut i: usize = 0;
    while i < entities.len()
        invariant
            i <= entities.len(),
            key_order(windows_by_index(entities@.take(i as int), *procs), keys@),
            wins.deep_view() == listed(windows_by_index(entities@.take(i as int), *procs), keys@),
            wins.len() == keys.len(),
        decreases entities.len() - i,
    {
        let ghost m = windows_by_index(entities@.take(i as int), *procs);
        assert(entities@.take(i + 1).drop_last() =~= entities@.take(i as int));
        assert(entities@.take(i + 1).last() == entities@[i as int]);
        let ghost m2 = add_entity(m, entities@[i as int], *procs);
        assert(windows_by_index(entities@.take(i + 1), *procs) == m2);
        let e = &entities[i];
        match e {
            Entity::Window { index, .. } => {
                let k = *index;
                let pos = position_of(&keys, k);
                match Window::from_entity(e) {
                    Ok(w) => {
                        let ghost wv = w.deep_view();
                        let ghost old_wins = wins.deep_view();
                        if pos < keys.len() && keys[pos] == k {
                            let ghost old_seq = wins@;
                            wins.remove(pos);
                            wins.insert(pos, w);
                            proof {
                                assert(wins@ =~= old_seq.update(pos as int, w));
                                assert(m2 == m.insert(k, wv));
                                assert forall|j: int| 0 <= j < keys.len() && j != pos implies keys@[j] != k by {
                                    if j > pos {
                                        assert(keys@[pos as int] < keys@[j]);
                                    }
                                }
                                assert(key_order(m2, keys@)) by {
                                    assert forall|x: usize| m2.dom().contains(x) <==> keys@.contains(x) by {
                                        if x == k {
                                            assert(keys@[pos as int] == k);
                                        }
                                    }
                                }
                                assert forall|j: int| 0 <= j < keys.len() implies
                                    #[trigger] listed(m2, keys@)[j] == wins.deep_view()[j] by {
                                    if j != pos {
                                        assert(wins.deep_view()[j] == old_wins[j]);
                                    }
                                }
                                assert(wins.deep_view() =~= listed(m2, keys@));
                            }
                        } else {
                            let ghost old_keys = keys@;
                            let ghost old_seq = wins@;
                            keys.insert(pos, k);
                            wins.insert(pos, w);
                            proof {
                                assert(forall|j: int| 0 <= j < wins@.len() ==> #[trigger] wins@[j] == if j < pos { old_seq[j] } else if j == pos { w } else { old_seq[j - 1] });
                                assert(m2 == m.insert(k, wv));
                                assert(!old_keys.contains(k)) by {
                                    if old_keys.contains(k) {
                                        let j = choose|j: int| 0 <= j < old_keys.len() && old_keys[j] == k;
                                        if j > pos {
                                            assert(old_keys[pos as int] < old_keys[j]);
                                        }
                                    }
                                }
                                assert(forall|j: int| 0 <= j < keys@.len() ==> #[trigger] keys@[j] == if j < pos { old_keys[j] } else if j == pos { k } else { old_keys[j - 1] });
                                assert forall|a: int, b: int| 0 <= a < b < keys@.len() implies keys@[a] < keys@[b] by {
                                    if b == pos {
                                    } else if a == pos {
                                        assert(old_keys[pos as int] >= k);
                                        if b - 1 > pos {
                                            assert(old_keys[pos as int] < old_keys[b - 1]);
                                        }
                                    } else if a < pos && b > pos {
                                        assert(old_keys[a] < k);
                                        assert(old_keys[pos as int] >= k);
                                        if b - 1 > pos {
                                            assert(old_keys[pos as int] < old_keys[b - 1]);
                                        }
                                    }
                                }
                                assert forall|x: usize| m2.dom().contains(x) <==> keys@.contains(x) by {
                                    if x == k {
                                        assert(keys@[pos as int] == k);
                                    } else {
                                        if old_keys.contains(x) {
                                            let j = choose|j: int| 0 <= j < old_keys.len() && old_keys[j] == x;
                                            if j < pos {
                                                assert(keys@[j] == x);
                                            } else {
                                                assert(keys@[j + 1] == x);
                                            }
                                        }
                                        if keys@.contains(x) {
                                            let j = choose|j: int| 0 <= j < keys@.len() && keys@[j] == x;
                                            if j < pos {
                                                assert(old_keys[j] == x);
                                            } else {
                                                assert(old_keys[j - 1] == x);
                                            }
                                        }
                                    }
                                }
                                assert forall|j: int| 0 <= j < keys@.len() implies
                                    #[trigger] listed(m2, keys@)[j] == wins.deep_view()[j] by {
                                    if j < pos {
                                        assert(keys@[j] != k);
                                        assert(wins.deep_view()[j] == old_wins[j]);
                                    } else if j > pos {
                                        assert(keys@[j] != k) by {
                                            assert(keys@[pos as int] < keys@[j]);
                                        }
                                        assert(wins.deep_view()[j] == old_wins[j - 1]);
                                    }
                                }
                                assert(wins.deep_view() =~= listed(m2, keys@));
                            }
                        }
                    },
                    Err(_) => {
                        assert(false);
                    },
                }
            },
            Entity::Pane { window_index, .. } => {
                let k = *window_index;
                let pos = position_of(&keys, k);
                if pos < keys.len() && keys[pos] == k {
                    match Pane::from_entity(e, procs) {
                        Ok(p) => {
                            let ghost pv = p.deep_view();
                            let ghost old_seq = wins@;
                            let ghost old_wins = wins.deep_view();
                            let mut w = wins.remove(pos);
                            let ghost w0 = w.deep_view();
                            assert(w0 == old_wins[pos as int]);
                            w.panes.push(p);
                            assert(w.panes.deep_view() =~= w0.panes.push(pv));
                            let ghost wv = w.deep_view();
                            wins.insert(pos, w);
                            proof {
                                assert(wins@ =~= old_seq.update(pos as int, w));
                                assert(keys@.contains(k)) by {
                                    assert(keys@[pos as int] == k);
                                }
                                assert(m.dom().contains(k));
                                assert(m[k] == listed(m, keys@)[pos as int]);
                                assert(wv == WindowView { panes: m[k].panes.push(pv), ..m[k] });
                                assert(m2 == m.insert(k, wv));
                                assert forall|j: int| 0 <= j < keys.len() && j != pos implies keys@[j] != k by {
                                    if j > pos {
                                        assert(keys@[pos as int] < keys@[j]);
                                    }
                                }
                                assert(key_order(m2, keys@)) by {
                                    assert forall|x: usize| m2.dom().contains(x) <==> keys@.contains(x) by {}
                                }
                                assert forall|j: int| 0 <= j < keys.len() implies
                                    #[trigger] listed(m2, keys@)[j] == wins.deep_view()[j] by {
                                    if j != pos {
                                        assert(wins.deep_view()[j] == old_wins[j]);
                                    }
                                }
                                assert(wins.deep_view() =~= listed(m2, keys@));
                            }
                        },
                        Err(_) => {
                            assert(false);
                        },
                    }
                } else {
                    proof {
                        assert(!keys@.contains(k)) by {
                            if keys@.contains(k) {
                                let j = choose|j: int| 0 <= j < keys@.len() && keys@[j] == k;
                                if j > pos {
                                    assert(keys@[pos as int] < keys@[j]);
                                }
                            }
                        }
                        assert(m2 == m);
                    }
                }
            },
        }
        i = i + 1;
    }
    assert(entities@.take(entities.len() as int) =~= entities@);
    (keys, wins)
}


/// The session a listing describes, before its paths are simplified: its
/// windows in the order of their indices, each with the path most of its
/// panes share.
pub open spec fn listed_windows(entities: Seq<Entity>, procs: ProcessTable, keys: Seq<usize>) -> Seq<WindowView> {
    with_window_paths(listed(windows_by_index(entities, procs), keys))
}

impl Session {
    /// The session that tmux's listing of windows and panes describes, named
    /// and targeted by `target`. Windows come in the order of their indices;
    /// the root is the path most panes share (when two or more share one),
    /// and a window's or pane's path that the root or its window already
    /// says is left out.
    pub fn from_entities(entities: &Vec<Entity>, procs: &ProcessTable, target: Target) -> (s: Session)
        ensures
            s.name.deep_view() == Some(target.combined@),
            s.target.deep_view() == Some(target.deep_view()),
            s.pre is None,
            s.pre_window is None,
            s.daemonize is None,
            s.config is None,
            exists|keys: Seq<usize>| {
                &&& key_order(windows_by_index(entities@, *procs), keys)
                &&& is_common_root(all_pane_paths(listed_windows(entities@, *procs, keys)), s.root.deep_view())
                &&& s.windows.deep_view() == cleared_windows(listed_windows(entities@, *procs, keys), s.root.deep_view())
            },
    {
        let (keys, wins) = collect_windows(entities, procs);
        let wins = set_window_paths(&wins);
        let root = derive_root_path(&wins);
        let windows = clear_redundant_paths(&wins, &root);
        let s = Session {
            name: Some(target.combined.clone()),
            pre: None,
            pre_window: None,
            root: root,
            windows: windows,
            target: Some(target),
            daemonize: None,
            config: None,
        };
        assert(listed_windows(entities@, *procs, keys@) == wins.deep_view());
        s
    }
}

} // verus!
