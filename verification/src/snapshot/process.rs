//! The processes of the machine, as plain values, and the search for the
//! command a pane is running in the foreground.

use vstd::prelude::*;

verus! {

/// One process: its id, its parent's id, when it started, and its command line.
#[derive(Debug)]
pub struct ProcessInfo {
    pub pid: usize,
    pub parent: Option<usize>,
    pub start_time: u64,
    pub cmd: Vec<String>,
}

/// The processes of the machine, in the order the system lists them.
#[derive(Debug)]
pub struct ProcessTable {
    pub processes: Vec<ProcessInfo>,
}

/// The index of the most recently started child of `pid` among the first `n`
/// processes; among children started at the same time, the last one listed.
pub open spec fn newest_child_upto(procs: Seq<ProcessInfo>, pid: usize, n: int) -> Option<int>
    decreases n,
{
    if n <= 0 {
        None
    } else {
        let best = newest_child_upto(procs, pid, n - 1);
        if procs[n - 1].parent == Some(pid) && (match best {
            None => true,
            Some(b) => procs[n - 1].start_time >= procs[b].start_time,
        }) {
            Some(n - 1)
        } else {
            best
        }
    }
}

/// The index of the most recently started child of `pid`.
pub open spec fn newest_child(procs: Seq<ProcessInfo>, pid: usize) -> Option<int> {
    newest_child_upto(procs, pid, procs.len() as int)
}

/// Follows the newest child down from `pid` until a process with no children,
/// at most `fuel` steps: `None` when `pid` has no children at all.
pub open spec fn foreground(procs: Seq<ProcessInfo>, pid: usize, fuel: nat) -> Option<int>
    decreases fuel,
{
    if fuel == 0 {
        None
    } else {
        match newest_child(procs, pid) {
            None => None,
            Some(c) => match foreground(procs, procs[c].pid, (fuel - 1) as nat) {
                Some(g) => Some(g),
                None => Some(c),
            },
        }
    }
}

/// The words of a command line joined by single spaces.
pub open spec fn join_words(words: Seq<Seq<char>>) -> Seq<char>
    decreases words.len(),
{
    if words.len() == 0 {
        Seq::empty()
    } else if words.len() == 1 {
        words[0]
    } else {
        join_words(words.drop_last()) + seq![' '] + words.last()
    }
}

/// Some process has this id.
pub open spec fn has_pid(procs: Seq<ProcessInfo>, pid: usize) -> bool {
    exists|k: int| 0 <= k < procs.len() && (#[trigger] procs[k]).pid == pid
}

/// The command running in the foreground of the shell `pid`: the command line
/// of the process reached by following the newest child down from the shell,
/// or nothing when the shell is unknown or idle. The descent takes at most as
/// many steps as there are processes.
pub open spec fn foreground_command(procs: Seq<ProcessInfo>, pid: usize) -> Option<Seq<char>> {
    if has_pid(procs, pid) {
        match foreground(procs, pid, procs.len()) {
            Some(i) => Some(join_words(procs[i].cmd.deep_view())),
            None => None,
        }
    } else {
        None
    }
}

/// Joins words with single spaces.
pub fn join_with_spaces(words: &Vec<String>) -> (s: String)
    ensures
        s@ == join_words(words.deep_view()),
{
    let mut s = String::new();
    let mut i: usize = 0;
    proof { reveal_strlit(" "); }
    while i < words.len()
        invariant
            i <= words.len(),
            s@ == join_words(words.deep_view().take(i as int)),
        decreases words.len() - i,
    {
        let ghost prev = words.deep_view().take(i as int);
        let ghost next = words.deep_view().take(i + 1);
        assert(next.drop_last() =~= prev);
        assert(next.last() == words@[i as int]@);
        proof { reveal_strlit(" "); }
        assert(" "@ =~= seq![' ']);
        if i > 0 {
            s.append(" ");
        } else {
            assert(next =~= seq![words@[0]@]);
        }
        s.append(words[i].as_str());
        assert(s@ =~= join_words(next));
        i = i + 1;
    }
    assert(words.deep_view().take(words.len() as int) =~= words.deep_view());
    s
}

impl ProcessTable {
    pub fn new(processes: Vec<ProcessInfo>) -> (t: ProcessTable)
        ensures
            t.processes == processes,
    {
        ProcessTable { processes }
    }

    /// The most recently started child of `pid`, as an index into the table.
    pub fn newest_child(&self, pid: usize) -> (r: Option<usize>)
        ensures
            match r {
                Some(i) => newest_child(self.processes@, pid) == Some(i as int),
                None => newest_child(self.processes@, pid) is None,
            },
    {
        let mut best: Option<usize> = None;
        let mut k: usize = 0;
        while k < self.processes.len()
            invariant
                k <= self.processes@.len(),
                best matches Some(i) ==> i < k,
                match best {
                    Some(i) => newest_child_upto(self.processes@, pid, k as int) == Some(i as int),
                    None => newest_child_upto(self.processes@, pid, k as int) is None,
                },
            decreases self.processes@.len() - k,
        {
            let p = &self.processes[k];
            let better = match best {
                None => true,
                Some(b) => p.start_time >= self.processes[b].start_time,
            };
            if p.parent == Some(pid) && better {
                best = Some(k);
            }
            k = k + 1;
        }
        best
    }

    /// Follows the newest child down from `pid`, at most `fuel` steps.
    pub fn find_foreground_process(&self, pid: usize, fuel: usize) -> (r: Option<usize>)
        ensures
            match r {
                Some(i) => foreground(self.processes@, pid, fuel as nat) == Some(i as int),
                None => foreground(self.processes@, pid, fuel as nat) is None,
            },
        decreases fuel,
    {
        if fuel == 0 {
            return None;
        }
        match self.newest_child(pid) {
            None => None,
            Some(c) => {
                assert(0 <= c < self.processes@.len()) by {
                    lemma_newest_in_range(self.processes@, pid, self.processes@.len() as int);
                }
                match self.find_foreground_process(self.processes[c].pid, fuel - 1) {
                    Some(g) => Some(g),
                    None => Some(c),
                }
            },
        }
    }

    fn has_pid(&self, pid: usize) -> (r: bool)
        ensures
            r == has_pid(self.processes@, pid),
    {
        let mut k: usize = 0;
        while k < self.processes.len()
            invariant
                k <= self.processes@.len(),
                forall|m: int| 0 <= m < k ==> (#[trigger] self.processes@[m]).pid != pid,
            decreases self.processes@.len() - k,
        {
            if self.processes[k].pid == pid {
                return true;
            }
            k = k + 1;
        }
        false
    }

    /// The command running in the foreground of the pane whose shell is `pid`.
    pub fn foreground_command(&self, pid: usize) -> (r: Option<String>)
        ensures
            r.deep_view() == foreground_command(self.processes@, pid),
    {
        if !self.has_pid(pid) {
            return None;
        }
        match self.find_foreground_process(pid, self.processes.len()) {
            Some(i) => {
                proof { lemma_foreground_in_range(self.processes@, pid, self.processes@.len()); }
                Some(join_with_spaces(&self.processes[i].cmd))
            },
            None => None,
        }
    }
}

proof fn lemma_newest_in_range(procs: Seq<ProcessInfo>, pid: usize, n: int)
    requires
        n <= procs.len(),
    ensures
        newest_child_upto(procs, pid, n) matches Some(i) ==> 0 <= i < n,
    decreases n,
{
    if n > 0 {
        lemma_newest_in_range(procs, pid, n - 1);
    }
}

proof fn lemma_foreground_in_range(procs: Seq<ProcessInfo>, pid: usize, fuel: nat)
    ensures
        foreground(procs, pid, fuel) matches Some(i) ==> 0 <= i < procs.len(),
    decreases fuel,
{
    if fuel > 0 {
        lemma_newest_in_range(procs, pid, procs.len() as int);
        match newest_child(procs, pid) {
            Some(c) => lemma_foreground_in_range(procs, procs[c].pid, (fuel - 1) as nat),
            None => {},
        }
    }
}

/// Where word `k` of a command line starts once the words are joined by
/// single spaces: after every earlier word and one space behind each.
pub open spec fn word_start(words: Seq<Seq<char>>, k: int) -> int
    decreases k,
{
    if k <= 0 { 0 } else { word_start(words, k - 1) + words[k - 1].len() + 1 }
}

/// The text spells out the words, in order, each one after the one before
/// and a single space, with nothing before, between or after them.
pub open spec fn spells_words(text: Seq<char>, words: Seq<Seq<char>>) -> bool {
    &&& words.len() == 0 ==> text.len() == 0
    &&& words.len() > 0 ==> text.len() == word_start(words, words.len() - 1) + words.last().len()
    &&& forall|k: int| 0 <= k < words.len() ==>
            text.subrange(word_start(words, k), word_start(words, k) + (#[trigger] words[k]).len()) == words[k]
    &&& forall|k: int| 0 <= k < words.len() - 1 ==> text[word_start(words, k) + (#[trigger] words[k]).len()] == ' '
}

/// The processes at these indices run one below the other, the first a child
/// of `pid` and each next one a child of the one before.
pub open spec fn child_chain(procs: Seq<ProcessInfo>, chain: Seq<int>, pid: usize) -> bool {
    &&& chain.len() >= 1
    &&& forall|m: int| 0 <= m < chain.len() ==> 0 <= #[trigger] chain[m] < procs.len()
    &&& procs[chain[0]].parent == Some(pid)
    &&& forall|m: int| 1 <= m < chain.len() ==> procs[#[trigger] chain[m]].parent == Some(procs[chain[m - 1]].pid)
}

proof fn lemma_word_start_prefix(words: Seq<Seq<char>>, n: int, k: int)
    requires
        0 <= k <= n <= words.len(),
    ensures
        word_start(words.take(n), k) == word_start(words, k),
    decreases k,
{
    if k > 0 {
        lemma_word_start_prefix(words, n, k - 1);
    }
}

proof fn lemma_word_start_mono(words: Seq<Seq<char>>, k: int, m: int)
    requires
        0 <= k <= m,
    ensures
        word_start(words, k) + (m - k) <= word_start(words, m),
    decreases m,
{
    if k < m {
        lemma_word_start_mono(words, k, m - 1);
    }
}

proof fn lemma_subrange_front(front: Seq<char>, back: Seq<char>, a: int, b: int)
    requires
        0 <= a <= b <= front.len(),
    ensures
        (front + back).subrange(a, b) == front.subrange(a, b),
{
    assert((front + back).subrange(a, b) =~= front.subrange(a, b));
}

/// Joining words with single spaces spells them out.
pub proof fn lemma_join_words_spells(words: Seq<Seq<char>>)
    ensures
        spells_words(join_words(words), words),
    decreases words.len(),
{
    let n = words.len() as int;
    if n == 1 {
        assert(join_words(words).subrange(0, words[0].len() as int) =~= words[0]);
    } else if n >= 2 {
        let front = words.drop_last();
        lemma_join_words_spells(front);
        lemma_join_spells_step(words);
    }
}

/// One more word keeps the earlier ones where they were.
proof fn lemma_join_spells_step(words: Seq<Seq<char>>)
    requires
        words.len() >= 2,
        spells_words(join_words(words.drop_last()), words.drop_last()),
    ensures
        spells_words(join_words(words), words),
{
    let n = words.len() as int;
    let front = words.drop_last();
    let j = join_words(front);
    let back = seq![' '] + words.last();
    let text = join_words(words);
    assert(text == j + back) by {
        assert(j + seq![' '] + words.last() =~= j + back);
    }
    assert(front =~= words.take(n - 1));
    lemma_word_start_prefix(words, n - 1, n - 2);
    lemma_word_start_prefix(words, n - 1, n - 1);
    assert(j.len() == word_start(words, n - 1) - 1);
    assert forall|k: int| 0 <= k < n implies
        text.subrange(word_start(words, k), word_start(words, k) + (#[trigger] words[k]).len()) == words[k] by {
        if k < n - 1 {
            lemma_step_word(words, k);
        } else {
            assert(text.subrange(word_start(words, k), word_start(words, k) + words[k].len()) =~= words.last());
        }
    }
    assert forall|k: int| 0 <= k < n - 1 implies text[word_start(words, k) + (#[trigger] words[k]).len()] == ' ' by {
        if k < n - 2 {
            lemma_step_space(words, k);
        }
    }
}

proof fn lemma_word_bounds(words: Seq<Seq<char>>, k: int, m: int)
    requires
        0 <= k < m,
    ensures
        0 <= word_start(words, k),
        word_start(words, k) + words[k].len() + 1 + (m - k - 1) <= word_start(words, m),
{
    lemma_word_start_mono(words, 0, k);
    assert(word_start(words, k + 1) == word_start(words, k) + words[k].len() + 1);
    lemma_word_start_mono(words, k + 1, m);
}

proof fn lemma_step_word(words: Seq<Seq<char>>, k: int)
    requires
        words.len() >= 2,
        0 <= k < words.len() - 1,
        spells_words(join_words(words.drop_last()), words.drop_last()),
    ensures
        join_words(words).subrange(word_start(words, k), word_start(words, k) + words[k].len()) == words[k],
{
    let n = words.len() as int;
    let front = words.drop_last();
    let j = join_words(front);
    let back = seq![' '] + words.last();
    assert(join_words(words) =~= j + back);
    assert(front =~= words.take(n - 1));
    lemma_word_start_prefix(words, n - 1, k);
    lemma_word_start_prefix(words, n - 1, n - 2);
    assert(j.len() == word_start(words, n - 2) + words[n - 2].len());
    assert(word_start(words, n - 1) == word_start(words, n - 2) + words[n - 2].len() + 1);
    lemma_word_bounds(words, k, n - 1);
    assert(front[k] == words[k]);
    assert(j.subrange(word_start(front, k), word_start(front, k) + front[k].len()) == front[k]);
    lemma_subrange_front(j, back, word_start(words, k), word_start(words, k) + words[k].len());
}

proof fn lemma_step_space(words: Seq<Seq<char>>, k: int)
    requires
        words.len() >= 2,
        0 <= k < words.len() - 2,
        spells_words(join_words(words.drop_last()), words.drop_last()),
    ensures
        join_words(words)[word_start(words, k) + words[k].len()] == ' ',
{
    let n = words.len() as int;
    let front = words.drop_last();
    let j = join_words(front);
    let back = seq![' '] + words.last();
    assert(join_words(words) =~= j + back);
    assert(front =~= words.take(n - 1));
    lemma_word_start_prefix(words, n - 1, k);
    lemma_word_start_prefix(words, n - 1, n - 2);
    assert(j.len() == word_start(words, n - 2) + words[n - 2].len());
    lemma_word_bounds(words, k, n - 2);
    assert(front[k] == words[k]);
    assert(j[word_start(front, k) + front[k].len()] == ' ');
}

proof fn lemma_newest_is_child(procs: Seq<ProcessInfo>, pid: usize, n: int)
    requires
        n <= procs.len(),
    ensures
        newest_child_upto(procs, pid, n) matches Some(c) ==> 0 <= c < n && procs[c].parent == Some(pid),
    decreases n,
{
    if n > 0 {
        lemma_newest_is_child(procs, pid, n - 1);
    }
}

/// The process the descent from `pid` reaches lies below `pid`: the end of a
/// chain of children that starts at it.
proof fn lemma_foreground_descends(procs: Seq<ProcessInfo>, pid: usize, fuel: nat) -> (chain: Seq<int>)
    requires
        foreground(procs, pid, fuel) is Some,
    ensures
        child_chain(procs, chain, pid),
        chain.last() == foreground(procs, pid, fuel)->Some_0,
    decreases fuel,
{
    lemma_newest_is_child(procs, pid, procs.len() as int);
    let c = newest_child(procs, pid)->Some_0;
    assert(0 <= c < procs.len() && procs[c].parent == Some(pid));
    match foreground(procs, procs[c].pid, (fuel - 1) as nat) {
        Some(g) => {
            let rest = lemma_foreground_descends(procs, procs[c].pid, (fuel - 1) as nat);
            let chain = seq![c] + rest;
            assert forall|m: int| 0 <= m < chain.len() implies 0 <= #[trigger] chain[m] < procs.len() by {
                if m > 0 {
                    assert(chain[m] == rest[m - 1]);
                }
            }
            assert forall|m: int| 1 <= m < chain.len() implies
                procs[#[trigger] chain[m]].parent == Some(procs[chain[m - 1]].pid) by {
                assert(chain[m] == rest[m - 1]);
                if m > 1 {
                    assert(chain[m - 1] == rest[m - 2]);
                }
            }
            chain
        },
        None => seq![c],
    }
}

/// The command recorded for a pane whose shell is `pid` is the whole command
/// line of a process that runs below that shell: every word of it, in order,
/// joined by single spaces.
pub proof fn lemma_foreground_command_is_whole_line(procs: Seq<ProcessInfo>, pid: usize)
    ensures
        foreground_command(procs, pid) matches Some(text) ==> exists|chain: Seq<int>| {
            &&& #[trigger] child_chain(procs, chain, pid)
            &&& spells_words(text, procs[chain.last()].cmd.deep_view())
        },
{
    if foreground_command(procs, pid) is Some {
        let chain = lemma_foreground_descends(procs, pid, procs.len());
        let k = foreground(procs, pid, procs.len())->Some_0;
        lemma_join_words_spells(procs[k].cmd.deep_view());
        assert(child_chain(procs, chain, pid));
    }
}

} // verus!
