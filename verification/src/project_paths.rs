//! Where a project's files live: the home directory, the project directory,
//! the project file and the template.

use vstd::prelude::*;
use crate::args::Args;
use crate::paths::{homedir, join_path, join_spec, path_with_extension, separator_free, with_extension};
use crate::tmux::target::CommonError;

verus! {

/// Project files end in this extension.
pub const CONFIG_EXTENSION: &'static str = "yml";

/// The project file extension holds no path separator.
pub(crate) proof fn lemma_config_extension_separator_free()
    ensures
        separator_free(CONFIG_EXTENSION@),
{
    reveal_strlit("yml");
    assert(CONFIG_EXTENSION@ == "yml"@);
    assert(!CONFIG_EXTENSION@.contains('/'));
    assert(!CONFIG_EXTENSION@.contains('\\'));
}
/// The project directory in the home directory, unless another is given.
pub const MUXED_FOLDER: &'static str = ".muxed";
/// The template's name, unless another is given.
pub const DEFAULT_TEMPLATE_NAME: &'static str = ".template";

#[derive(Debug)]
pub struct ProjectPaths {
    pub home_directory: String,
    pub project_directory: String,
    pub project_file: String,
    pub template_file: String,
}

/// The paths of a project for the given arguments and home directory: the
/// project directory given with `-p`, else `.muxed` in the home directory; the
/// project file and the template in it, each with the `yml` extension.
pub open spec fn paths_for(args: Args, home: Seq<char>) -> (Seq<char>, Seq<char>, Seq<char>, Seq<char>) {
    let dir = match args.flag_p {
        Some(p) => p@,
        None => join_spec(home, MUXED_FOLDER@),
    };
    let template = match args.flag_template {
        Some(t) => t@,
        None => DEFAULT_TEMPLATE_NAME@,
    };
    (
        home,
        dir,
        join_spec(dir, path_with_extension(args.arg_project@, CONFIG_EXTENSION@)),
        join_spec(dir, path_with_extension(template, CONFIG_EXTENSION@)),
    )
}

/// The paths found for a project keep its files side by side: the project
/// file and the template both lie in the project directory, each under its
/// own name with the `yml` extension. That directory is the one `-p` names,
/// else `.muxed` in the home directory.
pub proof fn lemma_project_files_share_directory(args: Args, home: Seq<char>, p: ProjectPaths)
    requires
        paths_view(p) == paths_for(args, home),
    ensures
        p.home_directory@ == home,
        args.flag_p matches Some(d) ==> p.project_directory@ == d@,
        args.flag_p is None ==> p.project_directory@ == join_spec(home, MUXED_FOLDER@),
        p.project_file@ == join_spec(p.project_directory@, path_with_extension(args.arg_project@, CONFIG_EXTENSION@)),
        args.flag_template matches Some(t) ==>
            p.template_file@ == join_spec(p.project_directory@, path_with_extension(t@, CONFIG_EXTENSION@)),
        args.flag_template is None ==>
            p.template_file@ == join_spec(p.project_directory@, path_with_extension(DEFAULT_TEMPLATE_NAME@, CONFIG_EXTENSION@)),
{
}

/// The four paths, as text.
pub open spec fn paths_view(p: ProjectPaths) -> (Seq<char>, Seq<char>, Seq<char>, Seq<char>) {
    (p.home_directory@, p.project_directory@, p.project_file@, p.template_file@)
}

impl ProjectPaths {
    pub fn new(home_directory: String, project_directory: String, project_file: String, template_file: String) -> (p: ProjectPaths)
        ensures
            paths_view(p) == (home_directory@, project_directory@, project_file@, template_file@),
    {
        ProjectPaths { home_directory, project_directory, project_file, template_file }
    }

    /// The paths of a project directory joined onto the home directory, and of
    /// a project file and a template in it, each given the `yml` extension.
    pub fn from_strs(home_directory: &str, project_directory: &str, project_file: &str, template_file: &str) -> (p: ProjectPaths)
        ensures
            p.home_directory@ == home_directory@,
            p.project_directory@ == join_spec(home_directory@, project_directory@),
            p.project_file@ == path_with_extension(join_spec(p.project_directory@, project_file@), CONFIG_EXTENSION@),
            p.template_file@ == path_with_extension(join_spec(p.project_directory@, template_file@), CONFIG_EXTENSION@),
    {
        let dir = join_path(home_directory, project_directory);
        let file = join_path(dir.as_str(), project_file);
        proof { lemma_config_extension_separator_free(); }
        let file = with_extension(file.as_str(), CONFIG_EXTENSION);
        let template = join_path(dir.as_str(), template_file);
        let template = with_extension(template.as_str(), CONFIG_EXTENSION);
        ProjectPaths {
            home_directory: String::from_str(home_directory),
            project_directory: dir,
            project_file: file,
            template_file: template,
        }
    }

    /// The paths of the project the arguments name, under the given home directory.
    pub fn from_args_with_home(args: &Args, home: &str) -> (p: ProjectPaths)
        ensures
            paths_view(p) == paths_for(*args, home@),
    {
        let dir = match &args.flag_p {
            Some(p) => p.clone(),
            None => join_path(home, MUXED_FOLDER),
        };
        proof { lemma_config_extension_separator_free(); }
        let file = with_extension(args.arg_project.as_str(), CONFIG_EXTENSION);
        let file = join_path(dir.as_str(), file.as_str());
        let template_name: &str = match &args.flag_template {
            Some(t) => t.as_str(),
            None => DEFAULT_TEMPLATE_NAME,
        };
        let template = with_extension(template_name, CONFIG_EXTENSION);
        let template = join_path(dir.as_str(), template.as_str());
        ProjectPaths {
            home_directory: String::from_str(home),
            project_directory: dir,
            project_file: file,
            template_file: template,
        }
    }

    /// The paths of the project the arguments name, under the user's home
    /// directory; an error when there is no home directory.
    pub fn from_args(args: &Args) -> (r: Result<ProjectPaths, CommonError>)
        ensures
            match r {
                Ok(p) => exists|home: Seq<char>| paths_view(p) == #[trigger] paths_for(*args, home),
                Err(e) => e matches CommonError::ProjectPaths(m) && m@ == "homedir not found"@,
            },
    {
        match homedir() {
            Some(h) => Ok(ProjectPaths::from_args_with_home(args, h.as_str())),
            None => Err(CommonError::ProjectPaths(String::from_str("homedir not found"))),
        }
    }
}

} // verus!
