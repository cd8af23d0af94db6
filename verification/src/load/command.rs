//! The commands sent to tmux to build a session, and the argument lists
//! they are run with.

use vstd::prelude::*;
use crate::tmux::target::{Target, TargetView};
use crate::load::target::SessionTarget;

verus! {

/// `args` followed by `-c path` when there is a path.
pub open spec fn with_dir(args: Seq<Seq<char>>, path: Option<Seq<char>>) -> Seq<Seq<char>> {
    match path {
        Some(p) => args + seq!["-c"@, p],
        None => args,
    }
}

fn push_dir(args: &mut Vec<String>, path: &Option<String>)
    ensures
        final(args).deep_view() == with_dir(old(args).deep_view(), path.deep_view()),
{
    match path {
        Some(p) => {
            let ghost before = args.deep_view();
            args.push(String::from_str("-c"));
            args.push(p.clone());
            assert(args.deep_view() =~= before + seq!["-c"@, p@]);
        },
        None => {},
    }
}

/// `new -d -s {session} -n {window} [-c {root}]`: starts the detached session with its first window.
#[derive(Debug)]
pub struct Session {
    pub target: SessionTarget,
    pub window_name: String,
    pub root_path: Option<String>,
}

impl Session {
    pub fn new(name: &str, window_name: &str, root_path: Option<String>) -> (c: Session)
        ensures
            c.target.session@ == name@,
            c.target.arg_string@ == name@,
            c.window_name@ == window_name@,
            c.root_path == root_path,
    {
        Session { target: SessionTarget::new(name), window_name: String::from_str(window_name), root_path }
    }

    pub open spec fn args_spec(&self) -> Seq<Seq<char>> {
        with_dir(seq!["new"@, "-d"@, "-s"@, self.target.arg_string@, "-n"@, self.window_name@], self.root_path.deep_view())
    }

    pub fn args(&self) -> (v: Vec<String>)
        ensures
            v.deep_view() == self.args_spec(),
    {
        let mut v: Vec<String> = Vec::new();
        v.push(String::from_str("new"));
        v.push(String::from_str("-d"));
        v.push(String::from_str("-s"));
        v.push(self.target.arg_string.clone());
        v.push(String::from_str("-n"));
        v.push(self.window_name.clone());
        assert(v.deep_view() =~= seq!["new"@, "-d"@, "-s"@, self.target.arg_string@, "-n"@, self.window_name@]);
        push_dir(&mut v, &self.root_path);
        v
    }
}

/// `new-window -t {session}: -n {name} [-c {path}]`: opens a further window at
/// the session's next free index.
#[derive(Debug)]
pub struct Window {
    pub name: String,
    pub target: Target,
    pub path: Option<String>,
}

impl Window {
    pub fn new(name: &str, target: Target, path: Option<String>) -> (c: Window)
        ensures
            c.name@ == name@,
            c.target == target,
            c.path == path,
    {
        Window { name: String::from_str(name), target, path }
    }

    pub open spec fn args_spec(&self) -> Seq<Seq<char>> {
        with_dir(seq!["new-window"@, "-t"@, self.target.session@ + seq![':'], "-n"@, self.name@], self.path.deep_view())
    }

    pub fn args(&self) -> (v: Vec<String>)
        ensures
            v.deep_view() == self.args_spec(),
    {
        let mut v: Vec<String> = Vec::new();
        v.push(String::from_str("new-window"));
        v.push(String::from_str("-t"));
        proof { reveal_strlit(":"); }
        let mut next = String::from_str(self.target.session.as_str());
        next.append(":");
        assert(next@ =~= self.target.session@ + seq![':']);
        v.push(next);
        v.push(String::from_str("-n"));
        v.push(self.name.clone());
        assert(v.deep_view() =~= seq!["new-window"@, "-t"@, self.target.session@ + seq![':'], "-n"@, self.name@]);
        push_dir(&mut v, &self.path);
        v
    }
}

/// `split-window -t {target} [-c {path}]`: splits a window into one more pane.
#[derive(Debug)]
pub struct Split {
    pub target: Target,
    pub path: Option<String>,
}

impl Split {
    pub fn new(target: Target, path: Option<String>) -> (c: Split)
        ensures
            c.target == target,
            c.path == path,
    {
        Split { target, path }
    }

    pub open spec fn args_spec(&self) -> Seq<Seq<char>> {
        with_dir(seq!["split-window"@, "-t"@, self.target.combined@], self.path.deep_view())
    }

    pub fn args(&self) -> (v: Vec<String>)
        ensures
            v.deep_view() == self.args_spec(),
    {
        let mut v: Vec<String> = Vec::new();
        v.push(String::from_str("split-window"));
        v.push(String::from_str("-t"));
        v.push(self.target.combined.clone());
        assert(v.deep_view() =~= seq!["split-window"@, "-t"@, self.target.combined@]);
        push_dir(&mut v, &self.path);
        v
    }
}

/// `select-layout -t {target} {layout}`: arranges the panes of a window.
#[derive(Debug)]
pub struct Layout {
    pub target: Target,
    pub layout: String,
}

impl Layout {
    pub fn new(target: Target, layout: String) -> (c: Layout)
        ensures
            c.target == target,
            c.layout == layout,
    {
        Layout { target, layout }
    }

    pub open spec fn args_spec(&self) -> Seq<Seq<char>> {
        seq!["select-layout"@, "-t"@, self.target.combined@, self.layout@]
    }

    pub fn args(&self) -> (v: Vec<String>)
        ensures
            v.deep_view() == self.args_spec(),
    {
        let mut v: Vec<String> = Vec::new();
        v.push(String::from_str("select-layout"));
        v.push(String::from_str("-t"));
        v.push(self.target.combined.clone());
        v.push(self.layout.clone());
        assert(v.deep_view() =~= self.args_spec());
        v
    }
}

/// `send-keys -t {target} {command} KPEnter`: types a command into a pane and runs it.
#[derive(Debug)]
pub struct SendKeys {
    pub target: Target,
    pub command: String,
}

impl SendKeys {
    pub fn new(target: Target, keys: String) -> (c: SendKeys)
        ensures
            c.target == target,
            c.command == keys,
    {
        SendKeys { target, command: keys }
    }

    pub open spec fn args_spec(&self) -> Seq<Seq<char>> {
        seq!["send-keys"@, "-t"@, self.target.combined@, self.command@, "KPEnter"@]
    }

    pub fn args(&self) -> (v: Vec<String>)
        ensures
            v.deep_view() == self.args_spec(),
    {
        let mut v: Vec<String> = Vec::new();
        v.push(String::from_str("send-keys"));
        v.push(String::from_str("-t"));
        v.push(self.target.combined.clone());
        v.push(self.command.clone());
        v.push(String::from_str("KPEnter"));
        assert(v.deep_view() =~= self.args_spec());
        v
    }
}

/// `attach -t {session} [-c {root}] >/dev/null`: attaches the terminal to the session.
#[derive(Debug)]
pub struct Attach {
    pub name: Target,
    pub root_path: Option<String>,
}

impl Attach {
    pub fn new(name: Target, root_path: Option<String>) -> (c: Attach)
        ensures
            c.name == name,
            c.root_path == root_path,
    {
        Attach { name, root_path }
    }

    pub open spec fn args_spec(&self) -> Seq<Seq<char>> {
        with_dir(seq!["attach"@, "-t"@, self.name.combined@], self.root_path.deep_view()) + seq![">/dev/null"@]
    }

    pub fn args(&self) -> (v: Vec<String>)
        ensures
            v.deep_view() == self.args_spec(),
    {
        let mut v: Vec<String> = Vec::new();
        v.push(String::from_str("attach"));
        v.push(String::from_str("-t"));
        v.push(self.name.combined.clone());
        assert(v.deep_view() =~= seq!["attach"@, "-t"@, self.name.combined@]);
        push_dir(&mut v, &self.root_path);
        let ghost before = v.deep_view();
        v.push(String::from_str(">/dev/null"));
        assert(v.deep_view() =~= before + seq![">/dev/null"@]);
        v
    }
}

/// `switch-client -t {session}`: moves a client that already runs inside tmux to the session.
#[derive(Debug)]
pub struct SwitchClient {
    pub target: Target,
}

impl SwitchClient {
    pub fn new(target: Target) -> (c: SwitchClient)
        ensures
            c.target == target,
    {
        SwitchClient { target }
    }

    pub open spec fn args_spec(&self) -> Seq<Seq<char>> {
        seq!["switch-client"@, "-t"@, self.target.combined@]
    }

    pub fn args(&self) -> (v: Vec<String>)
        ensures
            v.deep_view() == self.args_spec(),
    {
        let mut v: Vec<String> = Vec::new();
        v.push(String::from_str("switch-client"));
        v.push(String::from_str("-t"));
        v.push(self.target.combined.clone());
        assert(v.deep_view() =~= self.args_spec());
        v
    }
}

/// `select-window -t {target}`: moves focus to a window.
#[derive(Debug)]
pub struct SelectWindow {
    pub target: Target,
}

impl SelectWindow {
    pub fn new(target: Target) -> (c: SelectWindow)
        ensures
            c.target == target,
    {
        SelectWindow { target }
    }

    pub open spec fn args_spec(&self) -> Seq<Seq<char>> {
        seq!["select-window"@, "-t"@, self.target.combined@]
    }

    pub fn args(&self) -> (v: Vec<String>)
        ensures
            v.deep_view() == self.args_spec(),
    {
        let mut v: Vec<String> = Vec::new();
        v.push(String::from_str("select-window"));
        v.push(String::from_str("-t"));
        v.push(self.target.combined.clone());
        assert(v.deep_view() =~= self.args_spec());
        v
    }
}

/// `select-pane -t {target}`: moves focus to a pane.
#[derive(Debug)]
pub struct SelectPane {
    pub target: Target,
}

impl SelectPane {
    pub fn new(target: Target) -> (c: SelectPane)
        ensures
            c.target == target,
    {
        SelectPane { target }
    }

    pub open spec fn args_spec(&self) -> Seq<Seq<char>> {
        seq!["select-pane"@, "-t"@, self.target.combined@]
    }

    pub fn args(&self) -> (v: Vec<String>)
        ensures
            v.deep_view() == self.args_spec(),
    {
        let mut v: Vec<String> = Vec::new();
        v.push(String::from_str("select-pane"));
        v.push(String::from_str("-t"));
        v.push(self.target.combined.clone());
        assert(v.deep_view() =~= self.args_spec());
        v
    }
}

/// A command run before the session is built. It is not sent to tmux: it runs
/// as its own program, the first space-separated word of `command`, with the other
/// words as its arguments.
#[derive(Debug)]
pub struct Pre {
    pub command: String,
}

impl Pre {
    pub fn new(command: String) -> (c: Pre)
        ensures
            c.command == command,
    {
        Pre { command }
    }

    /// No tmux arguments: this command does not go through tmux.
    pub fn args(&self) -> (v: Vec<String>)
        ensures
            v@.len() == 0,
    {
        Vec::new()
    }

    /// The program and its arguments: the command split at every space.
    pub fn argv(&self) -> (v: Vec<String>)
        ensures
            v.deep_view() == crate::text::split_spec(self.command@, ' '),
            v@.len() >= 1,
    {
        let v = crate::text::split_at_char(self.command.as_str(), ' ');
        proof {
            crate::text::lemma_split_nonempty(self.command@, Seq::empty(), ' ');
        }
        v
    }
}

/// Every command that building a session can need, so that one list holds them
/// all and they run first in, first out.
#[derive(Debug)]
pub enum Commands {
    Attach(Attach),
    Layout(Layout),
    Pre(Pre),
    SelectPane(SelectPane),
    SelectWindow(SelectWindow),
    SendKeys(SendKeys),
    Session(Session),
    Split(Split),
    Window(Window),
    SwitchClient(SwitchClient),
}

/// What a command says, as plain values.
pub enum CommandView {
    Attach { target: TargetView, root: Option<Seq<char>> },
    Layout { target: TargetView, layout: Seq<char> },
    Pre { command: Seq<char> },
    SelectPane { target: TargetView },
    SelectWindow { target: TargetView },
    SendKeys { target: TargetView, command: Seq<char> },
    Session { session: Seq<char>, name: Seq<char>, window_name: Seq<char>, root: Option<Seq<char>> },
    Split { target: TargetView, path: Option<Seq<char>> },
    Window { name: Seq<char>, target: TargetView, path: Option<Seq<char>> },
    SwitchClient { target: TargetView },
}

impl DeepView for Commands {
    type V = CommandView;

    open spec fn deep_view(&self) -> CommandView {
        match self {
            Commands::Attach(c) => CommandView::Attach { target: c.name.deep_view(), root: c.root_path.deep_view() },
            Commands::Layout(c) => CommandView::Layout { target: c.target.deep_view(), layout: c.layout@ },
            Commands::Pre(c) => CommandView::Pre { command: c.command@ },
            Commands::SelectPane(c) => CommandView::SelectPane { target: c.target.deep_view() },
            Commands::SelectWindow(c) => CommandView::SelectWindow { target: c.target.deep_view() },
            Commands::SendKeys(c) => CommandView::SendKeys { target: c.target.deep_view(), command: c.command@ },
            Commands::Session(c) => CommandView::Session {
                session: c.target.session@,
                name: c.target.arg_string@,
                window_name: c.window_name@,
                root: c.root_path.deep_view(),
            },
            Commands::Split(c) => CommandView::Split { target: c.target.deep_view(), path: c.path.deep_view() },
            Commands::Window(c) => CommandView::Window { name: c.name@, target: c.target.deep_view(), path: c.path.deep_view() },
            Commands::SwitchClient(c) => CommandView::SwitchClient { target: c.target.deep_view() },
        }
    }
}

/// The tmux arguments a command view stands for.
pub open spec fn command_args(c: CommandView) -> Seq<Seq<char>> {
    match c {
        CommandView::Attach { target, root } => with_dir(seq!["attach"@, "-t"@, target.combined], root) + seq![">/dev/null"@],
        CommandView::Layout { target, layout } => seq!["select-layout"@, "-t"@, target.combined, layout],
        CommandView::Pre { command } => Seq::empty(),
        CommandView::SelectPane { target } => seq!["select-pane"@, "-t"@, target.combined],
        CommandView::SelectWindow { target } => seq!["select-window"@, "-t"@, target.combined],
        CommandView::SendKeys { target, command } => seq!["send-keys"@, "-t"@, target.combined, command, "KPEnter"@],
        CommandView::Session { name, window_name, root, .. } => with_dir(seq!["new"@, "-d"@, "-s"@, name, "-n"@, window_name], root),
        CommandView::Split { target, path } => with_dir(seq!["split-window"@, "-t"@, target.combined], path),
        CommandView::Window { name, target, path } => with_dir(seq!["new-window"@, "-t"@, target.session + seq![':'], "-n"@, name], path),
        CommandView::SwitchClient { target } => seq!["switch-client"@, "-t"@, target.combined],
    }
}

impl Commands {
    /// The arguments tmux runs the command with.
    pub fn args(&self) -> (v: Vec<String>)
        ensures
            v.deep_view() == command_args(self.deep_view()),
    {
        match self {
            Commands::Attach(c) => c.args(),
            Commands::Layout(c) => c.args(),
            Commands::Pre(c) => {
                let v = c.args();
                assert(v.deep_view() =~= Seq::<Seq<char>>::empty());
                v
            },
            Commands::SelectPane(c) => c.args(),
            Commands::SelectWindow(c) => c.args(),
            Commands::SendKeys(c) => c.args(),
            Commands::Session(c) => c.args(),
            Commands::Split(c) => c.args(),
            Commands::Window(c) => c.args(),
            Commands::SwitchClient(c) => c.args(),
        }
    }
}


/// The shell line that runs tmux with the given arguments, as an attach is run.
pub fn shell_line(args: &Vec<String>) -> (s: String)
    ensures
        s@ == crate::text::join_by(seq!["tmux"@] + args.deep_view(), " "@),
{
    let mut all: Vec<String> = Vec::new();
    all.push(String::from_str("tmux"));
    let mut i: usize = 0;
    while i < args.len()
        invariant
            i <= args.len(),
            all.deep_view() == seq!["tmux"@] + args.deep_view().take(i as int),
        decreases args.len() - i,
    {
        let ghost before = all.deep_view();
        all.push(args[i].clone());
        assert(all.deep_view() =~= before.push(args@[i as int]@));
        assert(args.deep_view().take(i + 1) =~= args.deep_view().take(i as int).push(args@[i as int]@));
        i = i + 1;
    }
    assert(args.deep_view().take(args.len() as int) =~= args.deep_view());
    crate::text::join_strings(&all, " ")
}


impl From<Attach> for Commands {
    fn from(command: Attach) -> (c: Commands) {
        Commands::Attach(command)
    }
}

impl vstd::std_specs::convert::FromSpecImpl<Attach> for Commands {
    open spec fn obeys_from_spec() -> bool {
        true
    }

    open spec fn from_spec(command: Attach) -> Commands {
        Commands::Attach(command)
    }
}

impl From<Layout> for Commands {
    fn from(command: Layout) -> (c: Commands) {
        Commands::Layout(command)
    }
}

impl vstd::std_specs::convert::FromSpecImpl<Layout> for Commands {
    open spec fn obeys_from_spec() -> bool {
        true
    }

    open spec fn from_spec(command: Layout) -> Commands {
        Commands::Layout(command)
    }
}

impl From<Pre> for Commands {
    fn from(command: Pre) -> (c: Commands) {
        Commands::Pre(command)
    }
}

impl vstd::std_specs::convert::FromSpecImpl<Pre> for Commands {
    open spec fn obeys_from_spec() -> bool {
        true
    }

    open spec fn from_spec(command: Pre) -> Commands {
        Commands::Pre(command)
    }
}

impl From<SelectPane> for Commands {
    fn from(command: SelectPane) -> (c: Commands) {
        Commands::SelectPane(command)
    }
}

impl vstd::std_specs::convert::FromSpecImpl<SelectPane> for Commands {
    open spec fn obeys_from_spec() -> bool {
        true
    }

    open spec fn from_spec(command: SelectPane) -> Commands {
        Commands::SelectPane(command)
    }
}

impl From<SelectWindow> for Commands {
    fn from(command: SelectWindow) -> (c: Commands) {
        Commands::SelectWindow(command)
    }
}

impl vstd::std_specs::convert::FromSpecImpl<SelectWindow> for Commands {
    open spec fn obeys_from_spec() -> bool {
        true
    }

    open spec fn from_spec(command: SelectWindow) -> Commands {
        Commands::SelectWindow(command)
    }
}

impl From<SendKeys> for Commands {
    fn from(command: SendKeys) -> (c: Commands) {
        Commands::SendKeys(command)
    }
}

impl vstd::std_specs::convert::FromSpecImpl<SendKeys> for Commands {
    open spec fn obeys_from_spec() -> bool {
        true
    }

    open spec fn from_spec(command: SendKeys) -> Commands {
        Commands::SendKeys(command)
    }
}

impl From<Session> for Commands {
    fn from(command: Session) -> (c: Commands) {
        Commands::Session(command)
    }
}

impl vstd::std_specs::convert::FromSpecImpl<Session> for Commands {
    open spec fn obeys_from_spec() -> bool {
        true
    }

    open spec fn from_spec(command: Session) -> Commands {
        Commands::Session(command)
    }
}

impl From<Split> for Commands {
    fn from(command: Split) -> (c: Commands) {
        Commands::Split(command)
    }
}

impl vstd::std_specs::convert::FromSpecImpl<Split> for Commands {
    open spec fn obeys_from_spec() -> bool {
        true
    }

    open spec fn from_spec(command: Split) -> Commands {
        Commands::Split(command)
    }
}

impl From<Window> for Commands {
    fn from(command: Window) -> (c: Commands) {
        Commands::Window(command)
    }
}

impl vstd::std_specs::convert::FromSpecImpl<Window> for Commands {
    open spec fn obeys_from_spec() -> bool {
        true
    }

    open spec fn from_spec(command: Window) -> Commands {
        Commands::Window(command)
    }
}

impl From<SwitchClient> for Commands {
    fn from(command: SwitchClient) -> (c: Commands) {
        Commands::SwitchClient(command)
    }
}

impl vstd::std_specs::convert::FromSpecImpl<SwitchClient> for Commands {
    open spec fn obeys_from_spec() -> bool {
        true
    }

    open spec fn from_spec(command: SwitchClient) -> Commands {
        Commands::SwitchClient(command)
    }
}

} // verus!
