//! A project: a configured session under its name, and the commands that open it.

use vstd::prelude::*;
use crate::args::Args;
use crate::load::command::{Attach, CommandView, Commands, SwitchClient};
use crate::load::enrichment::{enrich, enriched_session, indices_fit};
use crate::load::error::InterpreterError;
use crate::load::laws::lemma_enriched_session_plans;
use crate::load::to_command::{Plan, matches_result, plan_spec};
use crate::tmux::config::{Config, option_or_zero};
use crate::tmux::session::{Session, SessionView};
use crate::tmux::target::{Target, TargetView, combined_of};

verus! {

/// A configured session and the name it opens under.
#[derive(Debug)]
pub struct Project {
    pub name: String,
    pub session: Session,
}

/// The name a project opens under: the session's own name, else the name
/// the project was asked for by.
pub open spec fn project_name_of(session: SessionView, asked: Seq<char>) -> Seq<char> {
    match session.name {
        Some(n) => n,
        None => asked,
    }
}

impl Project {
    /// The project a configuration describes, asked for by `asked`.
    pub fn new(asked: &str, session: Session) -> (p: Project)
        ensures
            p.name@ == project_name_of(session.deep_view(), asked@),
            p.session.deep_view() == session.deep_view(),
    {
        let name = match &session.name {
            Some(n) => n.clone(),
            None => String::from_str(asked),
        };
        Project { name, session }
    }

    pub fn name(&self) -> (n: &String)
        ensures
            n == &self.name,
    {
        &self.name
    }

    pub fn session(&self) -> (s: &Session)
        ensures
            s == &self.session,
    {
        &self.session
    }
}

/// The commands that build the project's session in tmux.
pub fn plan(project: &Project) -> (r: Result<Vec<Commands>, InterpreterError>)
    ensures
        matches_result(r, plan_spec(project.session)),
{
    project.session.command_plan()
}

/// The target of a whole session.
pub open spec fn session_target(name: Seq<char>) -> TargetView {
    TargetView { session: name, window: None, pane: None, combined: combined_of(name, None, None) }
}

/// The command that opens a running session: from inside tmux (`nested`)
/// the client switches to it; from outside, the terminal attaches to it.
pub open spec fn open_view(name: Seq<char>, nested: bool) -> CommandView {
    if nested {
        CommandView::SwitchClient { target: session_target(name) }
    } else {
        CommandView::Attach { target: session_target(name), root: None }
    }
}

/// The numbering that the output of `tmux show-options` sets.
pub open spec fn config_of(tmux_options: Seq<char>) -> Config {
    Config {
        base_index: option_or_zero(tmux_options, "base-index"@),
        pane_base_index: option_or_zero(tmux_options, "pane-base-index"@),
    }
}

/// How to open a running session.
pub fn open(project_name: &str, nested: bool) -> (c: Commands)
    ensures
        c.deep_view() == open_view(project_name@, nested),
{
    let t = Target::new(project_name, None, None);
    if nested {
        Commands::SwitchClient(SwitchClient::new(t))
    } else {
        Commands::Attach(Attach::new(t, None))
    }
}

/// When a session of the project's name already runs (`running`), the command
/// that opens it; otherwise nothing, and the session is to be built.
pub fn session_exists(project_name: &str, running: bool, nested: bool) -> (r: Option<Commands>)
    ensures
        running ==> (r matches Some(c) && c.deep_view() == open_view(project_name@, nested)),
        !running ==> r is None,
{
    if running {
        Some(open(project_name, nested))
    } else {
        None
    }
}

/// Whether every window and pane number stays within `usize` once the base
/// indices are added.
pub fn fits_indices(session: &Session, config: Config) -> (r: bool)
    ensures
        r == indices_fit(session.deep_view(), config),
{
    let n = session.windows.len();
    if n > 0 && config.base_index > usize::MAX - (n - 1) {
        return false;
    }
    let mut i: usize = 0;
    while i < n
        invariant
            n == session.windows@.len(),
            i <= n,
            forall|k: int| 0 <= k < i ==>
                (#[trigger] session.deep_view().windows[k]).panes.len() == 0
                || config.pane_base_index + session.deep_view().windows[k].panes.len() - 1 <= usize::MAX,
        decreases n - i,
    {
        let m = session.windows[i].panes.len();
        assert(session.deep_view().windows[i as int].panes.len() == m);
        if m > 0 && config.pane_base_index > usize::MAX - (m - 1) {
            return false;
        }
        i = i + 1;
    }
    true
}

/// What loading a project decides, given what was read for it: the session
/// its configuration describes, whether a session of its name already runs,
/// whether muxed runs inside tmux, and the output of `tmux show-options`.
/// A running session is opened; otherwise the session is named, numbered and
/// targeted (detached when `-d` was given) and planned.
pub fn exec(args: &Args, session: Session, running: bool, nested: bool, tmux_options: String) -> (r: Result<Vec<Commands>, InterpreterError>)
    requires
        !running ==> indices_fit(session.deep_view(), config_of(tmux_options@)),
    ensures
        running ==> (r matches Ok(v) && v@.len() == 1
            && v@[0].deep_view() == open_view(project_name_of(session.deep_view(), args.arg_project@), nested)),
        !running ==> exists|s: Session, home: Option<Seq<char>>| {
            &&& s.deep_view() == #[trigger] enriched_session(session.deep_view(),
                project_name_of(session.deep_view(), args.arg_project@), args.flag_d, config_of(tmux_options@), home)
            &&& matches_result(r, #[trigger] plan_spec(s))
        },
        r is Ok,
{
    let ghost sv = session.deep_view();
    let project = Project::new(args.arg_project.as_str(), session);
    match session_exists(project.name.as_str(), running, nested) {
        Some(c) => {
            let mut v: Vec<Commands> = Vec::new();
            v.push(c);
            Ok(v)
        },
        None => {
            let config = Config::from_string(tmux_options);
            let Project { name, session } = project;
            let mut session = session;
            enrich(&mut session, name, args.flag_d, config);
            let ghost s = session;
            let r = session.command_plan();
            proof {
                let home = choose|home: Option<Seq<char>>| s.deep_view() == #[trigger] enriched_session(sv, project_name_of(sv, args.arg_project@), args.flag_d, config, home);
                assert(s.deep_view() == enriched_session(sv, project_name_of(sv, args.arg_project@), args.flag_d, config, home));
                assert(matches_result(r, plan_spec(s)));
                lemma_enriched_session_plans(s, sv, project_name_of(sv, args.arg_project@), args.flag_d, config, home);
            }
            r
        },
    }
}

} // verus!
