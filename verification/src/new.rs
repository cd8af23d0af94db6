//! New project files: filling the template with the project's name and path.

use vstd::prelude::*;
use crate::text::{replace_all, replace_str};
use crate::tmux::target::CommonError;

verus! {

/// The I/O failure carries the message of the error that caused it.
#[derive(Debug)]
pub enum NewError {
    Common(CommonError),
    Io(String),
    Write(String),
    Template(String),
}

impl NewError {
    pub open spec fn message_spec(&self) -> Seq<char> {
        match self {
            NewError::Common(e) => e.message_spec(),
            NewError::Io(m) => m@,
            NewError::Write(m) => "Template write error: "@ + m@,
            NewError::Template(m) => "Template error: "@ + m@,
        }
    }

    /// The message reported for the error.
    pub fn message(&self) -> (s: String)
        ensures
            s@ == self.message_spec(),
    {
        match self {
            NewError::Common(e) => e.message(),
            NewError::Io(m) => m.clone(),
            NewError::Write(m) => {
                let mut s = String::from_str("Template write error: ");
                s.append(m.as_str());
                s
            },
            NewError::Template(m) => {
                let mut s = String::from_str("Template error: ");
                s.append(m.as_str());
                s
            },
        }
    }
}


/// The template after each placeholder, in turn, is replaced by its value.
pub open spec fn apply_replacements(template: Seq<char>, reps: Seq<(Seq<char>, Seq<char>)>) -> Seq<char>
    decreases reps.len(),
{
    if reps.len() == 0 {
        template
    } else {
        replace_all(apply_replacements(template, reps.drop_last()), reps.last().0, reps.last().1)
    }
}

/// The placeholders and values of a list of replacements, as plain text.
pub open spec fn replacement_views(reps: Seq<(&str, &str)>) -> Seq<(Seq<char>, Seq<char>)> {
    reps.map_values(|r: (&str, &str)| (r.0@, r.1@))
}

/// Fills a template: every occurrence of each placeholder is replaced by its
/// value, one placeholder after the other.
pub fn modified_template(template: &str, replacements: &[(&str, &str)]) -> (r: String)
    ensures
        r@ == apply_replacements(template@, replacement_views(replacements@)),
{
    let mut t = String::from_str(template);
    let mut i: usize = 0;
    while i < replacements.len()
        invariant
            i <= replacements@.len(),
            t@ == apply_replacements(template@, replacement_views(replacements@).take(i as int)),
        decreases replacements@.len() - i,
    {
        let (placeholder, value) = replacements[i];
        assert(replacement_views(replacements@).take(i + 1).drop_last() =~= replacement_views(replacements@).take(i as int));
        t = replace_str(t.as_str(), placeholder, value);
        i = i + 1;
    }
    assert(replacement_views(replacements@).take(replacements@.len() as int) =~= replacement_views(replacements@));
    t
}


/// The template a new project file starts from when the user keeps none of
/// their own: `{file}` stands for the file's path, `{project}` for its name.
pub const DEFAULT_TEMPLATE: &'static str = "# {file}
#
# The muxed project {project}.
#
# `root` is the directory every window and pane opens in, unless it gives its
# own `path`. Each entry of `windows` opens a window: a plain string names the
# window and runs as its command; a map names the window and gives its
# `layout`, its `panes` (a command for each) and its `path`.
# `pre` runs before the session is built; `pre_window` runs in every window
# and pane.
root: \"~/\"
windows:
  - editor:
      layout: \"main-vertical\"
      panes: [\"vi\", \"ls -alh\"]
  - processes: \"ls /proc\"
  - logs: \"tail -f /var/log/dmesg\"
";

/// The text of a new project file: the user's template when there is one,
/// else the default, with `{file}` and `{project}` filled in.
pub open spec fn project_text_spec(user_template: Option<Seq<char>>, file: Seq<char>, project: Seq<char>) -> Seq<char> {
    let template = match user_template {
        Some(t) => t,
        None => DEFAULT_TEMPLATE@,
    };
    replace_all(replace_all(template, "{file}"@, file), "{project}"@, project)
}

/// The text of a new project file, from the user's template when there is one.
pub fn project_text(user_template: &Option<String>, file: &str, project: &str) -> (r: String)
    ensures
        r@ == project_text_spec(user_template.deep_view(), file@, project@),
{
    let template: &str = match user_template {
        Some(t) => t.as_str(),
        None => DEFAULT_TEMPLATE,
    };
    let ghost tv = match user_template.deep_view() {
        Some(t) => t,
        None => DEFAULT_TEMPLATE@,
    };
    assert(template@ == tv);
    let replacements = [("{file}", file), ("{project}", project)];
    let reps: &[(&str, &str)] = &replacements;
    assert(reps@ == replacements@);
    let r = modified_template(template, reps);
    let ghost rv = replacement_views(reps@);
    assert(rv =~= seq![("{file}"@, file@), ("{project}"@, project@)]);
    assert(rv.drop_last() =~= seq![("{file}"@, file@)]);
    assert(rv.drop_last().drop_last() =~= Seq::<(Seq<char>, Seq<char>)>::empty());
    assert(apply_replacements(tv, rv.drop_last().drop_last()) == tv);
    assert(apply_replacements(tv, rv.drop_last()) == replace_all(tv, "{file}"@, file@));
    assert(apply_replacements(tv, rv) == project_text_spec(user_template.deep_view(), file@, project@));
    r
}


impl From<CommonError> for NewError {
    fn from(err: CommonError) -> (r: NewError) {
        NewError::Common(err)
    }
}

impl vstd::std_specs::convert::FromSpecImpl<CommonError> for NewError {
    open spec fn obeys_from_spec() -> bool {
        true
    }

    open spec fn from_spec(err: CommonError) -> NewError {
        NewError::Common(err)
    }
}

} // verus!
