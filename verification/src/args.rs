//! The command line, as the commands read it.

use vstd::prelude::*;
use crate::text::{decimal, u64_to_string};

verus! {

/// The arguments muxed runs with.
/// `flag_d`: create the session without attaching to it;
/// `flag_v`: print the version; `flag_f`: overwrite an existing file;
/// `flag_p`: the project directory to read or write;
/// `flag_t`: the running session to read; `flag_debug`: print what happens;
/// `flag_template`: the template a new project starts from;
/// `flag_1`: list one project per line; `flag_dryrun`: show, do not run;
/// `arg_project`: the project; `cmd_edit`, `cmd_new`, `cmd_snapshot`: the command.
#[derive(Debug)]
pub struct Args {
    pub flag_debug: bool,
    pub flag_d: bool,
    pub flag_f: bool,
    pub flag_p: Option<String>,
    pub flag_t: Option<String>,
    pub flag_v: bool,
    pub flag_template: Option<String>,
    pub flag_1: bool,
    pub flag_dryrun: bool,
    pub arg_project: String,
    pub cmd_edit: bool,
    pub cmd_new: bool,
    pub cmd_snapshot: bool,
}

/// A random number from `rand::random::<u16>`. Nothing is stated of it.
#[verifier::external_body]
pub(crate) fn random_u16() -> (n: u16)
{
    rand::random::<u16>()
}

/// A random `u16`, written in decimal.
pub fn random_name() -> (s: String)
    ensures
        exists|n: u16| s@ == decimal(n as nat),
{
    let n = random_u16();
    u64_to_string(n as u64)
}

impl Default for Args {
    /// A new project with a random name, detached, and nothing else set.
    fn default() -> (a: Args)
        ensures
            exists|n: u16| a.arg_project@ == decimal(n as nat),
            !a.cmd_edit,
            a.cmd_new,
            !a.cmd_snapshot,
            a.flag_d,
            !a.flag_debug,
            !a.flag_f,
            a.flag_p is None,
            a.flag_t is None,
            !a.flag_v,
            a.flag_template is None,
            !a.flag_1,
            !a.flag_dryrun,
    {
        Args {
            arg_project: random_name(),
            cmd_edit: false,
            cmd_new: true,
            cmd_snapshot: false,
            flag_d: true,
            flag_debug: false,
            flag_f: false,
            flag_p: None,
            flag_t: None,
            flag_v: false,
            flag_template: None,
            flag_1: false,
            flag_dryrun: false,
        }
    }
}

} // verus!
