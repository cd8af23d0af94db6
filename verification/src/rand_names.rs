//! Random names for scratch projects, templates and project directories.

use vstd::prelude::*;
use crate::args::random_name;
use crate::paths::{join_path, join_spec, path_with_extension, with_extension};
use crate::project_paths::{CONFIG_EXTENSION, lemma_config_extension_separator_free};
use crate::text::decimal;

verus! {

/// `prefix` followed by a random `u16` in decimal.
fn prefixed_name(prefix: &str) -> (s: String)
    ensures
        exists|n: u16| s@ == prefix@ + decimal(n as nat),
{
    let mut s = String::from_str(prefix);
    let n = random_name();
    s.append(n.as_str());
    s
}

/// A template name with a random number in it.
pub fn template_path_name() -> (s: String)
    ensures
        exists|n: u16| s@ == "muxed-test-template-"@ + decimal(n as nat),
{
    prefixed_name("muxed-test-template-")
}

/// A project name with a random number in it.
pub fn project_file_name() -> (s: String)
    ensures
        exists|n: u16| s@ == "muxed-test-project-"@ + decimal(n as nat),
{
    prefixed_name("muxed-test-project-")
}

/// A project directory with a random number in its name, in `tmp_dir`.
pub fn project_path(tmp_dir: &str) -> (s: String)
    ensures
        exists|n: u16| s@ == join_spec(tmp_dir@, ".muxed-test-"@ + decimal(n as nat)),
{
    let name = prefixed_name(".muxed-test-");
    join_path(tmp_dir, name.as_str())
}

/// A random project directory in `tmp_dir`, as `project_path` gives it.
pub open spec fn scratch_dir(tmp_dir: Seq<char>, n: u16) -> Seq<char> {
    join_spec(tmp_dir, ".muxed-test-"@ + decimal(n as nat))
}

/// A project file with a random name in a random project directory in `tmp_dir`.
pub fn project_file_path(tmp_dir: &str) -> (s: String)
    ensures
        exists|n: u16, m: u16| s@ == join_spec(scratch_dir(tmp_dir@, n),
            path_with_extension("muxed-test-project-"@ + decimal(m as nat), CONFIG_EXTENSION@)),
{
    let name = project_file_name();
    proof { lemma_config_extension_separator_free(); }
    let file = with_extension(name.as_str(), CONFIG_EXTENSION);
    let dir = project_path(tmp_dir);
    let s = join_path(dir.as_str(), file.as_str());
    proof {
        let m = choose|m: u16| name@ == "muxed-test-project-"@ + decimal(m as nat);
        let n = choose|n: u16| dir@ == join_spec(tmp_dir@, ".muxed-test-"@ + decimal(n as nat));
        assert(s@ == join_spec(scratch_dir(tmp_dir@, n), path_with_extension("muxed-test-project-"@ + decimal(m as nat), CONFIG_EXTENSION@)));
    }
    s
}

/// The project file `name` in a random project directory in `tmp_dir`.
pub fn project_file_path_with_name(tmp_dir: &str, name: &str) -> (s: String)
    ensures
        exists|n: u16| s@ == join_spec(scratch_dir(tmp_dir@, n), path_with_extension(name@, CONFIG_EXTENSION@)),
{
    proof { lemma_config_extension_separator_free(); }
    let file = with_extension(name, CONFIG_EXTENSION);
    let dir = project_path(tmp_dir);
    let s = join_path(dir.as_str(), file.as_str());
    proof {
        let n = choose|n: u16| dir@ == join_spec(tmp_dir@, ".muxed-test-"@ + decimal(n as nat));
        assert(s@ == join_spec(scratch_dir(tmp_dir@, n), path_with_extension(name@, CONFIG_EXTENSION@)));
    }
    s
}

/// A template with a random name in a random project directory in `tmp_dir`.
pub fn project_template_file_path(tmp_dir: &str) -> (s: String)
    ensures
        exists|n: u16, m: u16| s@ == join_spec(scratch_dir(tmp_dir@, n),
            path_with_extension("muxed-test-template-"@ + decimal(m as nat), CONFIG_EXTENSION@)),
{
    let name = template_path_name();
    proof { lemma_config_extension_separator_free(); }
    let file = with_extension(name.as_str(), CONFIG_EXTENSION);
    let dir = project_path(tmp_dir);
    let s = join_path(dir.as_str(), file.as_str());
    proof {
        let m = choose|m: u16| name@ == "muxed-test-template-"@ + decimal(m as nat);
        let n = choose|n: u16| dir@ == join_spec(tmp_dir@, ".muxed-test-"@ + decimal(n as nat));
        assert(s@ == join_spec(scratch_dir(tmp_dir@, n), path_with_extension("muxed-test-template-"@ + decimal(m as nat), CONFIG_EXTENSION@)));
    }
    s
}

/// A project file with a random name in `dir`.
pub fn project_file_with_dir(dir: &str) -> (s: String)
    ensures
        exists|m: u16| s@ == join_spec(dir@, path_with_extension("muxed-test-project-"@ + decimal(m as nat), CONFIG_EXTENSION@)),
{
    let name = project_file_name();
    proof { lemma_config_extension_separator_free(); }
    let file = with_extension(name.as_str(), CONFIG_EXTENSION);
    let s = join_path(dir, file.as_str());
    proof {
        let m = choose|m: u16| name@ == "muxed-test-project-"@ + decimal(m as nat);
        assert(s@ == join_spec(dir@, path_with_extension("muxed-test-project-"@ + decimal(m as nat), CONFIG_EXTENSION@)));
    }
    s
}

} // verus!
